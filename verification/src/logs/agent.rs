//! The log agent inside a guest: what to ask it and what to make of its answer.

use crate::json::{items_in, json_of, json_parsed, field, read_json, text_in, Json};
use crate::logs::entry::{
    entries_view, epoch_time, priority_from_name, priority_name, EntryView, LogEntry, LogFilter,
    LogPriority, Timestamp,
};
use crate::logs::ids::{line_id, line_log_id};
use crate::outside::{parse_rfc3339, rfc3339, rfc3339_instant, rfc3339_text, utf8_text};
use crate::text::{
    begins_with, cat2, cat5, cut, cut_at, decimal, decimal_text, split_once, split_once_at,
    upper_hex_text,
};
use serde_json::Value;
use vstd::prelude::*;
use vstd::string::*;
use vstd::utf8::*;

verus! {

// ---------------------------------------------------------------------------
// The question
// ---------------------------------------------------------------------------

/// A byte that may stand in a query as it is.
pub open spec fn unreserved(b: u8) -> bool {
    ||| 65 <= b <= 90
    ||| 97 <= b <= 122
    ||| 48 <= b <= 57
    ||| b == 45
    ||| b == 95
    ||| b == 46
    ||| b == 126
}

/// A byte as it stands in a query.
pub open spec fn query_byte(b: u8) -> Seq<char> {
    if unreserved(b) {
        seq![b as char]
    } else {
        seq!['%'] + upper_hex_text(b as nat, 2)
    }
}

/// Bytes as they stand in a query: what is not unreserved, by its number.
pub open spec fn query_bytes(bytes: Seq<u8>) -> Seq<char>
    decreases bytes.len(),
{
    if bytes.len() == 0 {
        Seq::empty()
    } else {
        query_bytes(bytes.drop_last()) + query_byte(bytes.last())
    }
}

/// A text as it stands in a query.
pub open spec fn query_text(s: Seq<char>) -> Seq<char> {
    query_bytes(encode_utf8(s))
}

/// A text as it stands in a query.
pub fn qenc(s: &str) -> (r: String)
    ensures
        r@ == query_text(s@),
{
    let bytes = s.as_bytes();
    let mut out = String::new();
    let mut i: usize = 0;
    assert(bytes@.take(0) =~= Seq::empty());
    while i < bytes.len()
        invariant
            i <= bytes@.len(),
            out@ == query_bytes(bytes@.take(i as int)),
        decreases bytes@.len() - i,
    {
        let b: u8 = bytes[i];
        let ghost upto = bytes@.take(i + 1);
        assert(upto.drop_last() =~= bytes@.take(i as int));
        let ghost before = out@;
        if (65 <= b && b <= 90) || (97 <= b && b <= 122) || (48 <= b && b <= 57) || b == 45 || b
            == 95 || b == 46 || b == 126 {
            out.push(b as char);
            assert(out@ =~= before + query_byte(b));
        } else {
            out.push('%');
            let hex = crate::text::upper_hex(b as u32, 2);
            out.append(hex.as_str());
            assert(out@ =~= before + query_byte(b));
        }
        i += 1;
    }
    assert(bytes@.take(i as int) =~= bytes@);
    out
}

/// One more condition of a query.
pub open spec fn with_condition(query: Seq<char>, name: Seq<char>, value: Option<Seq<char>>) -> Seq<
    char,
> {
    match value {
        Some(v) => if query.len() == 0 {
            name + v
        } else {
            query + "&"@ + name + v
        },
        None => query,
    }
}

fn add_condition(query: &mut String, name: &str, value: Option<String>)
    ensures
        final(query)@ == with_condition(
            old(query)@,
            name@,
            crate::logs::entry::text_option(value),
        ),
{
    if let Some(v) = value {
        if !query.as_str().is_empty() {
            query.append("&");
        }
        query.append(name);
        query.append(v.as_str());
        proof {
            if old(query)@.len() == 0 {
                assert(old(query)@ + name@ =~= name@);
            }
        }
    }
}

/// The instant of a filter as it stands in a query.
pub open spec fn query_instant(t: Option<Timestamp>) -> Option<Seq<char>> {
    match t {
        Some(t) => Some(query_text(rfc3339_text(t.seconds(), t.nanoseconds()))),
        None => None,
    }
}

fn instant_in_query(t: &Option<Timestamp>) -> (r: Option<String>)
    ensures
        crate::logs::entry::text_option(r) == query_instant(*t),
{
    match t {
        Some(t) => {
            t.check();
            let s = rfc3339(t.secs(), t.nanos());
            Some(qenc(s.as_str()))
        },
        None => None,
    }
}

/// The text of a filter as it stands in a query.
pub open spec fn query_option(s: Option<String>) -> Option<Seq<char>> {
    match s {
        Some(s) => Some(query_text(s@)),
        None => None,
    }
}

fn text_in_query(s: &Option<String>) -> (r: Option<String>)
    ensures
        crate::logs::entry::text_option(r) == query_option(*s),
{
    match s {
        Some(s) => Some(qenc(s.as_str())),
        None => None,
    }
}

/// The query that a filter makes.
pub open spec fn filter_query(filter: LogFilter) -> Seq<char> {
    let q0 = with_condition(
        Seq::empty(),
        "tail="@,
        match filter.wanted() {
            Some(n) => Some(decimal_text(n as nat)),
            None => None,
        },
    );
    let q1 = with_condition(q0, "source="@, query_option(filter.source));
    let q2 = with_condition(q1, "pattern="@, query_option(filter.pattern));
    let q3 = with_condition(
        q2,
        "priority="@,
        match filter.priority {
            Some(p) => Some(p.name()),
            None => None,
        },
    );
    let q4 = with_condition(q3, "since="@, query_instant(filter.since));
    with_condition(q4, "until="@, query_instant(filter.until))
}

/// The address of an agent without the scheme.
pub open spec fn bare_address(url: Seq<char>) -> Seq<char> {
    if "http://"@.is_prefix_of(url) {
        url.skip(7)
    } else {
        url
    }
}

/// The host and port of an agent's address.
pub open spec fn agent_host(url: Seq<char>) -> Seq<char> {
    match cut(bare_address(url), '/') {
        Some((host, rest)) => host,
        None => bare_address(url),
    }
}

/// The path of an agent's address.
pub open spec fn agent_path(url: Seq<char>) -> Seq<char> {
    match cut(bare_address(url), '/') {
        Some((host, rest)) => "/"@ + rest,
        None => Seq::empty(),
    }
}

/// What an agent is asked for.
pub open spec fn agent_target(url: Seq<char>, filter: LogFilter) -> Seq<char> {
    if filter_query(filter).len() == 0 {
        agent_path(url) + "/logs"@
    } else {
        agent_path(url) + "/logs?"@ + filter_query(filter)
    }
}

/// The request that is sent to an agent.
pub open spec fn agent_request_text(url: Seq<char>, filter: LogFilter) -> Seq<char> {
    "GET "@ + agent_target(url, filter) + " HTTP/1.1\r\nHost: "@ + agent_host(url)
        + "\r\nConnection: close\r\n\r\n"@
}

/// Where to connect to reach an agent, and what to send.
#[derive(Debug, Clone)]
pub struct AgentRequest {
    pub host: String,
    pub request: String,
}

/// Where to connect to reach an agent, and what to send for a filter.
pub fn agent_request(url: &str, filter: &LogFilter) -> (r: AgentRequest)
    ensures
        r.host@ == agent_host(url@),
        r.request@ == agent_request_text(url@, *filter),
{
    proof {
        reveal_strlit("http://");
    }
    let address: String = if begins_with(url, "http://") {
        let cs = crate::text::chars_of(url);
        let rest = crate::text::piece_of(&cs, 7, cs.len());
        assert(rest@ =~= url@.skip(7));
        rest
    } else {
        url.to_owned()
    };
    let (host, path) = match split_once(address.as_str(), '/') {
        Some((h, rest)) => (h, cat2("/", rest.as_str())),
        None => (address, String::new()),
    };
    let wanted: Option<String> = match filter.tail {
        Some(n) => Some(decimal(n as u64)),
        None => match filter.limit {
            Some(n) => Some(decimal(n as u64)),
            None => None,
        },
    };
    let priority: Option<String> = match filter.priority {
        Some(p) => Some(priority_name(p).to_owned()),
        None => None,
    };
    let mut query = String::new();
    add_condition(&mut query, "tail=", wanted);
    add_condition(&mut query, "source=", text_in_query(&filter.source));
    add_condition(&mut query, "pattern=", text_in_query(&filter.pattern));
    add_condition(&mut query, "priority=", priority);
    add_condition(&mut query, "since=", instant_in_query(&filter.since));
    add_condition(&mut query, "until=", instant_in_query(&filter.until));
    assert(query@ == filter_query(*filter));
    let target: String = if query.as_str().is_empty() {
        cat2(path.as_str(), "/logs")
    } else {
        crate::text::cat3(path.as_str(), "/logs?", query.as_str())
    };
    let request = cat5(
        "GET ",
        target.as_str(),
        " HTTP/1.1\r\nHost: ",
        host.as_str(),
        "\r\nConnection: close\r\n\r\n",
    );
    AgentRequest { host, request }
}

// ---------------------------------------------------------------------------
// The answer
// ---------------------------------------------------------------------------

/// The instant of a record: the start of 1970 where its text names none.
pub open spec fn record_instant(s: Seq<char>, t: Timestamp) -> bool {
    match rfc3339_instant(s) {
        Some((secs, nanos)) => t.seconds() == secs && t.nanoseconds() == nanos,
        None => t == epoch_time(),
    }
}

fn instant_of(s: &str) -> (t: Timestamp)
    ensures
        record_instant(s@, t),
{
    match parse_rfc3339(s) {
        Some((secs, nanos)) => match Timestamp::new(secs, nanos) {
            Some(t) => t,
            None => Timestamp::epoch(),
        },
        None => Timestamp::epoch(),
    }
}

/// The key of a field of a record, by its place.
pub open spec fn record_key(at: nat) -> Seq<char> {
    if at == 0 {
        "timestamp"@
    } else if at == 1 {
        "priority"@
    } else if at == 2 {
        "message"@
    } else {
        "source"@
    }
}

/// A field of a record, by its place.
pub open spec fn record_field(j: Json, at: nat) -> Option<Json> {
    j.field(record_key(at), at, 4)
}

/// A value is a record of the agent: four texts.
pub open spec fn is_record(j: Json) -> bool {
    &&& record_field(j, 0) matches Some(Json::Text(_))
    &&& record_field(j, 1) matches Some(Json::Text(_))
    &&& record_field(j, 2) matches Some(Json::Text(_))
    &&& record_field(j, 3) matches Some(Json::Text(_))
}

/// The text of a field of a record.
pub open spec fn record_text(j: Json, at: nat) -> Seq<char> {
    record_field(j, at)->0.text()->0
}

/// An entry is what a record of the agent makes.
pub open spec fn record_makes(j: Json, e: EntryView) -> bool {
    &&& record_instant(record_text(j, 0), e.timestamp)
    &&& e.id == line_id(record_text(j, 3), e.timestamp, record_text(j, 2))
    &&& e.priority == LogPriority::named(record_text(j, 1))
    &&& e.message == record_text(j, 2)
    &&& e.source == Some(record_text(j, 3))
    &&& e.log_type is None
    &&& e.size is None
    &&& e.status is None
}

/// The body of a response that reports success.
pub open spec fn success_body(response: Seq<u8>) -> Option<Seq<char>> {
    if !valid_utf8(response) {
        None
    } else {
        match cut_at(decode_utf8(response), "\r\n\r\n"@) {
            Some((head, body)) => if "HTTP/1.1 200"@.is_prefix_of(head)
                || "HTTP/1.0 200"@.is_prefix_of(head) {
                Some(body)
            } else {
                None
            },
            None => None,
        }
    }
}

/// The records in the answer of an agent, if it is one: a list of records, in a
/// response that reports success.
pub open spec fn agent_records(response: Seq<u8>) -> Option<Seq<Json>> {
    match success_body(response) {
        Some(body) => match json_parsed(encode_utf8(body)) {
            Some(Json::List(items)) => if forall|i: int|
                0 <= i < items.len() ==> is_record(#[trigger] items[i]) {
                Some(items)
            } else {
                None
            },
            _ => None,
        },
        None => None,
    }
}

fn text_field(v: &Value, key: &str, at: usize) -> (r: Option<String>)
    ensures
        match r {
            Some(s) => json_of(*v).field(key@, at as nat, 4) == Some(Json::Text(s@)),
            None => !(json_of(*v).field(key@, at as nat, 4) matches Some(Json::Text(_))),
        },
{
    match field(v, key, at, 4) {
        Some(m) => text_in(m),
        None => None,
    }
}

fn entry_of(v: &Value) -> (r: Option<LogEntry>)
    ensures
        match r {
            Some(e) => is_record(json_of(*v)) && record_makes(json_of(*v), e@),
            None => !is_record(json_of(*v)),
        },
{
    let when = match text_field(v, "timestamp", 0) {
        Some(s) => s,
        None => {
            return None;
        },
    };
    let severity = match text_field(v, "priority", 1) {
        Some(s) => s,
        None => {
            return None;
        },
    };
    let message = match text_field(v, "message", 2) {
        Some(s) => s,
        None => {
            return None;
        },
    };
    let source = match text_field(v, "source", 3) {
        Some(s) => s,
        None => {
            return None;
        },
    };
    let timestamp = instant_of(when.as_str());
    let id = line_log_id(source.as_str(), timestamp, message.as_str());
    Some(
        LogEntry {
            id,
            timestamp,
            priority: priority_from_name(severity.as_str()),
            message,
            source: Some(source),
            log_type: None,
            size: None,
            status: None,
        },
    )
}

/// What is made of the answer of an agent.
pub open spec fn agent_answered(response: Seq<u8>, r: Option<Vec<LogEntry>>) -> bool {
    match r {
        Some(entries) => agent_records(response) matches Some(records) && records.len()
            == entries@.len() && forall|i: int|
            0 <= i < records.len() ==> record_makes(
                #[trigger] records[i],
                entries_view(entries@)[i],
            ),
        None => agent_records(response) is None,
    }
}

/// The entries in the answer of an agent; `None` for a response that is no
/// success or cannot be understood.
pub fn agent_entries(response: &Vec<u8>) -> (r: Option<Vec<LogEntry>>)
    ensures
        agent_answered(response@, r),
{
    let text = match utf8_text(response.as_slice()) {
        Some(t) => t,
        None => {
            return None;
        },
    };
    let (head, body) = match split_once_at(text.as_str(), "\r\n\r\n") {
        Some(p) => p,
        None => {
            return None;
        },
    };
    if !begins_with(head.as_str(), "HTTP/1.1 200") && !begins_with(head.as_str(), "HTTP/1.0 200") {
        return None;
    }
    let v = match read_json(body.as_str().as_bytes()) {
        Some(v) => v,
        None => {
            return None;
        },
    };
    let items = match items_in(&v) {
        Some(items) => items,
        None => {
            return None;
        },
    };
    let ghost records = items@.map_values(|x: Value| json_of(x));
    assert(json_parsed(encode_utf8(body@)) == Some(Json::List(records)));
    let mut entries: Vec<LogEntry> = Vec::new();
    let mut i: usize = 0;
    while i < items.len()
        invariant
            i <= items@.len(),
            records == items@.map_values(|x: Value| json_of(x)),
            success_body(response@) == Some(body@),
            json_parsed(encode_utf8(body@)) == Some(Json::List(records)),
            entries@.len() == i,
            forall|j: int| 0 <= j < i ==> is_record(#[trigger] records[j]),
            forall|j: int|
                0 <= j < i ==> record_makes(#[trigger] records[j], entries_view(entries@)[j]),
        decreases items@.len() - i,
    {
        let ghost before = entries@;
        match entry_of(&items[i]) {
            Some(e) => {
                entries.push(e);
                assert(entries_view(entries@) =~= entries_view(before).push(e@));
            },
            None => {
                assert(!is_record(records[i as int]));
                return None;
            },
        }
        i += 1;
    }
    Some(entries)
}

/// Only letters, digits and four marks stand in a query as they are; any other byte
/// stands there as a percent sign and its two hexadecimal digits, the higher one first.
pub proof fn law_bytes_in_a_query(b: u8)
    ensures
        query_byte(b) == seq![b as char] <==> ('A' <= b as char <= 'Z') || ('a' <= b as char <= 'z')
            || ('0' <= b as char <= '9') || b as char == '-' || b as char == '_' || b as char == '.'
            || b as char == '~',
        query_byte(b) != seq![b as char] ==> query_byte(b) == seq![
            '%',
            crate::text::upper_hex_char(b as nat / 16),
            crate::text::upper_hex_char(b as nat % 16),
        ],
{
    let n = b as nat;
    reveal_with_fuel(upper_hex_text, 3);
    assert(upper_hex_text(n / 16 / 16, 0) =~= Seq::empty());
    assert(upper_hex_text(n, 2) =~= seq![
        crate::text::upper_hex_char(n / 16),
        crate::text::upper_hex_char(n % 16),
    ]) by {
        assert((n / 16) % 16 == n / 16);
    }
    let shown = seq!['%'] + upper_hex_text(n, 2);
    assert(shown =~= seq![
        '%',
        crate::text::upper_hex_char(n / 16),
        crate::text::upper_hex_char(n % 16),
    ]);
    assert(seq![b as char].len() == 1 && shown.len() == 3);
}

/// Bytes stand in a query one behind the other.
pub proof fn law_a_query_goes_byte_by_byte(a: Seq<u8>, b: Seq<u8>)
    ensures
        query_bytes(a + b) == query_bytes(a) + query_bytes(b),
        query_bytes(Seq::<u8>::empty()).len() == 0,
    decreases b.len(),
{
    if b.len() == 0 {
        assert(a + b =~= a);
        assert(query_bytes(a) + query_bytes(b) =~= query_bytes(a));
    } else {
        law_a_query_goes_byte_by_byte(a, b.drop_last());
        assert((a + b).drop_last() =~= a + b.drop_last());
        assert((a + b).last() == b.last());
        assert(query_bytes(a + b) =~= query_bytes(a) + query_bytes(b));
    }
}

/// A filter that asks for one thing makes a query of that one condition, and one that
/// asks for nothing makes none.
pub proof fn law_a_query_says_what_is_asked_for(f: LogFilter)
    ensures
        ({
            let counts = f.tail is Some || f.limit is Some;
            let others = (f.source is Some, f.pattern is Some, f.priority is Some, f.since is Some, f.until is Some);
            &&& !counts && others == (false, false, false, false, false) ==> filter_query(f).len()
                == 0
            &&& counts && others == (false, false, false, false, false) ==> filter_query(f)
                == "tail="@ + decimal_text((if f.tail is Some {
                f.tail->0
            } else {
                f.limit->0
            }) as nat)
            &&& !counts && others == (true, false, false, false, false) ==> filter_query(f)
                == "source="@ + query_text(f.source->0@)
            &&& !counts && others == (false, true, false, false, false) ==> filter_query(f)
                == "pattern="@ + query_text(f.pattern->0@)
            &&& !counts && others == (false, false, true, false, false) ==> filter_query(f)
                == "priority="@ + f.priority->0.name()
            &&& !counts && others == (false, false, false, true, false) ==> filter_query(f)
                == "since="@ + query_text(
                rfc3339_text(f.since->0.seconds(), f.since->0.nanoseconds()),
            )
            &&& !counts && others == (false, false, false, false, true) ==> filter_query(f)
                == "until="@ + query_text(
                rfc3339_text(f.until->0.seconds(), f.until->0.nanoseconds()),
            )
        }),
{
}

/// A further condition stands behind an ampersand.
pub proof fn law_conditions_are_joined(query: Seq<char>, name: Seq<char>, value: Seq<char>)
    requires
        query.len() > 0,
    ensures
        with_condition(query, name, Some(value)) == query + seq!['&'] + name + value,
        with_condition(query, name, None) == query,
{
    reveal_strlit("&");
    assert("&"@ =~= seq!['&']);
}

/// An agent is reached at the host of its address and asked below its path, with or
/// without the scheme before it.
pub proof fn law_an_agent_is_reached_at_its_host(host: Seq<char>, path: Seq<char>, f: LogFilter)
    requires
        !host.contains('/'),
        !"http://"@.is_prefix_of(host),
        !"http://"@.is_prefix_of(host + seq!['/'] + path),
    ensures
        agent_host("http://"@ + host) == host,
        agent_host(host) == host,
        agent_host("http://"@ + (host + seq!['/'] + path)) == host,
        agent_host(host + seq!['/'] + path) == host,
        agent_path(host).len() == 0,
        agent_path("http://"@ + (host + seq!['/'] + path)) == seq!['/'] + path,
        filter_query(f).len() == 0 ==> agent_target(host, f) == "/logs"@,
        filter_query(f).len() > 0 ==> agent_target(host, f) == "/logs?"@ + filter_query(f),
{
    reveal_strlit("http://");
    reveal_strlit("/");
    assert("/"@ =~= seq!['/']);
    let plain = "http://"@ + host;
    assert(plain.take(7) =~= "http://"@);
    assert(plain.skip(7) =~= host);
    let below = host + seq!['/'] + path;
    let full = "http://"@ + below;
    assert(full.take(7) =~= "http://"@);
    assert(full.skip(7) =~= below);
    assert(crate::text::first_char_at(below, '/', host.len() as int)) by {
        assert(below[host.len() as int] == '/');
        assert(below.take(host.len() as int) =~= host);
    }
    crate::text::lemma_cut(below, '/', host.len() as int);
    assert(below.take(host.len() as int) =~= host);
    assert(below.skip(host.len() as int + 1) =~= path);
    crate::text::law_a_text_is_cut_at_the_first_place(host, '/');
    assert(agent_path(host) =~= Seq::empty());
    assert(agent_path(host) + "/logs"@ =~= "/logs"@);
    assert(agent_path(host) + "/logs?"@ + filter_query(f) =~= "/logs?"@ + filter_query(f));
}

/// What a record of an agent says is taken over: its message and source as they are, its
/// priority by its word, and its instant where it names one.
pub proof fn law_a_record_is_taken_over(
    members: Map<Seq<char>, Json>,
    e: EntryView,
    when: Seq<char>,
    word: Seq<char>,
    message: Seq<char>,
    source: Seq<char>,
)
    requires
        members.contains_key("timestamp"@) && members["timestamp"@] == Json::Text(when),
        members.contains_key("priority"@) && members["priority"@] == Json::Text(word),
        members.contains_key("message"@) && members["message"@] == Json::Text(message),
        members.contains_key("source"@) && members["source"@] == Json::Text(source),
        record_makes(Json::Object(members), e),
    ensures
        is_record(Json::Object(members)),
        e.message == message,
        e.source == Some(source),
        e.priority == LogPriority::named(word),
        e.id == line_id(source, e.timestamp, message),
        rfc3339_instant(when) matches Some(t) ==> e.timestamp.seconds() == t.0
            && e.timestamp.nanoseconds() == t.1,
        rfc3339_instant(when) is None ==> e.timestamp == epoch_time(),
        e.log_type is None && e.size is None && e.status is None,
{
}

/// Only a response that says in its first line that it succeeded has a body that counts,
/// and that body is what stands behind the first empty line.
pub proof fn law_only_success_has_a_body(response: Seq<u8>, body: Seq<char>)
    requires
        success_body(response) == Some(body),
    ensures
        valid_utf8(response),
        "HTTP/1.1 200"@.is_prefix_of(decode_utf8(response)) || "HTTP/1.0 200"@.is_prefix_of(
            decode_utf8(response),
        ),
        exists|head: Seq<char>| decode_utf8(response) == #[trigger] (head + "\r\n\r\n"@ + body),
{
    let text = decode_utf8(response);
    crate::text::law_a_text_is_cut_at_another(text, "\r\n\r\n"@);
    let (head, b) = cut_at(text, "\r\n\r\n"@)->0;
    assert(text == head + "\r\n\r\n"@ + body);
    if "HTTP/1.1 200"@.is_prefix_of(head) {
        let n = "HTTP/1.1 200"@.len() as int;
        assert(text.take(n) =~= head.take(n));
    } else {
        let n = "HTTP/1.0 200"@.len() as int;
        assert(text.take(n) =~= head.take(n));
    }
}

/// An answer counts exactly when it reports success and its body is a list of records;
/// every record then makes one entry, in order.
pub proof fn law_every_record_makes_an_entry(
    response: Seq<u8>,
    r: Option<Vec<LogEntry>>,
    body: Seq<char>,
    items: Seq<Json>,
)
    requires
        agent_answered(response, r),
        success_body(response) == Some(body),
        json_parsed(encode_utf8(body)) == Some(Json::List(items)),
    ensures
        r is Some <==> forall|i: int| 0 <= i < items.len() ==> is_record(#[trigger] items[i]),
        r matches Some(entries) ==> entries@.len() == items.len() && forall|i: int|
            0 <= i < items.len() ==> (#[trigger] entries@[i]).message@ == record_text(items[i], 2)
                && entries@[i].source is Some && entries@[i].source->0@ == record_text(items[i], 3),
{
    if let Some(entries) = r {
        assert forall|i: int| 0 <= i < items.len() implies (#[trigger] entries@[i]).message@
            == record_text(items[i], 2) && entries@[i].source is Some && entries@[i].source->0@
            == record_text(items[i], 3) by {
            assert(record_makes(items[i], entries_view(entries@)[i]));
            assert(entries_view(entries@)[i] == entries@[i]@);
        }
    }
}

/// A response that reports no success, or whose body is no list, has no entries.
pub proof fn law_what_is_no_answer_has_no_entries(response: Seq<u8>, r: Option<Vec<LogEntry>>)
    requires
        agent_answered(response, r),
    ensures
        success_body(response) is None ==> r is None,
        success_body(response) is Some && !(json_parsed(
            encode_utf8(success_body(response)->0),
        ) matches Some(Json::List(_))) ==> r is None,
{
}

/// A request asks for the target at the host, and for the connection to be closed.
pub proof fn law_a_request_names_target_and_host(url: Seq<char>, f: LogFilter)
    ensures
        ("GET "@ + agent_target(url, f)).is_prefix_of(agent_request_text(url, f)),
        (agent_host(url) + "\r\nConnection: close\r\n\r\n"@).is_suffix_of(
            agent_request_text(url, f),
        ),
{
    let all = agent_request_text(url, f);
    let front = "GET "@ + agent_target(url, f);
    assert(all.take(front.len() as int) =~= front);
    let back = agent_host(url) + "\r\nConnection: close\r\n\r\n"@;
    assert(all.subrange(all.len() - back.len(), all.len() as int) =~= back);
}

} // verus!
