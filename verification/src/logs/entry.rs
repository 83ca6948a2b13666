//! Log entries, the filter a reader asks with, and the page a reader gets.

use crate::outside::is_instant;
use vstd::prelude::*;

verus! {

/// An instant, as seconds since the start of 1970 in UTC and nanoseconds.
#[derive(Debug, Clone, Copy, PartialEq, Eq, Structural)]
pub struct Timestamp {
    secs: i64,
    nanos: u32,
}

impl Timestamp {
    #[verifier::type_invariant]
    spec fn in_calendar(self) -> bool {
        is_instant(self.secs, self.nanos)
    }

    /// The seconds since the start of 1970.
    pub closed spec fn seconds(self) -> i64 {
        self.secs
    }

    /// The nanoseconds within the second.
    pub closed spec fn nanoseconds(self) -> u32 {
        self.nanos
    }

    /// The instant with the given seconds and nanoseconds, if there is one.
    pub fn new(secs: i64, nanos: u32) -> (r: Option<Timestamp>)
        ensures
            match r {
                Some(t) => is_instant(secs, nanos) && t.seconds() == secs && t.nanoseconds()
                    == nanos,
                None => !is_instant(secs, nanos),
            },
    {
        if secs < -8334601228800 || secs > 8210266876799 || nanos >= 2_000_000_000 {
            return None;
        }
        if nanos >= 1_000_000_000 && !last_second_of_minute(secs) {
            return None;
        }
        Some(Timestamp { secs, nanos })
    }

    /// The start of 1970.
    pub fn epoch() -> (t: Timestamp)
        ensures
            t == epoch_time(),
    {
        Timestamp { secs: 0, nanos: 0 }
    }

    /// The seconds since the start of 1970.
    pub fn secs(&self) -> (r: i64)
        ensures
            r == self.seconds(),
    {
        self.secs
    }

    /// The nanoseconds within the second.
    pub fn nanos(&self) -> (r: u32)
        ensures
            r == self.nanoseconds(),
    {
        self.nanos
    }

    /// One instant comes before another.
    pub open spec fn before(self, other: Timestamp) -> bool {
        self.seconds() < other.seconds() || (self.seconds() == other.seconds()
            && self.nanoseconds() < other.nanoseconds())
    }

    /// Whether this instant comes before another.
    pub fn is_before(&self, other: &Timestamp) -> (r: bool)
        ensures
            r == self.before(*other),
    {
        self.secs < other.secs || (self.secs == other.secs && self.nanos < other.nanos)
    }

    /// Every instant is one of the calendar's.
    pub(crate) fn check(&self)
        ensures
            is_instant(self.seconds(), self.nanoseconds()),
    {
        proof {
            use_type_invariant(self);
        }
    }
}

/// The start of 1970.
pub closed spec fn epoch_time() -> Timestamp {
    Timestamp { secs: 0, nanos: 0 }
}

fn last_second_of_minute(secs: i64) -> (r: bool)
    requires
        -8334601228800 <= secs <= 8210266876799,
    ensures
        r == (secs % 60 == 59),
{
    let shifted: u64 = (secs + 8334601228800) as u64;
    assert(8334601228800int % 60 == 0);
    shifted % 60 == 59
}

/// How severe an entry is, the most severe first.
#[derive(Debug, Clone, Copy, PartialEq, Eq, Structural)]
pub enum LogPriority {
    Emergency,
    Alert,
    Critical,
    Error,
    Warning,
    Notice,
    Info,
    Debug,
}

impl LogPriority {
    /// The place in the order of severity: the lower, the more severe.
    pub open spec fn level(self) -> nat {
        match self {
            LogPriority::Emergency => 0,
            LogPriority::Alert => 1,
            LogPriority::Critical => 2,
            LogPriority::Error => 3,
            LogPriority::Warning => 4,
            LogPriority::Notice => 5,
            LogPriority::Info => 6,
            LogPriority::Debug => 7,
        }
    }

    fn rank(self) -> (r: u8)
        ensures
            r == self.level(),
    {
        match self {
            LogPriority::Emergency => 0,
            LogPriority::Alert => 1,
            LogPriority::Critical => 2,
            LogPriority::Error => 3,
            LogPriority::Warning => 4,
            LogPriority::Notice => 5,
            LogPriority::Info => 6,
            LogPriority::Debug => 7,
        }
    }

    /// Whether an entry of this priority is as severe as `threshold` or more.
    pub fn at_least(self, threshold: LogPriority) -> (r: bool)
        ensures
            r == (self.level() <= threshold.level()),
    {
        self.rank() <= threshold.rank()
    }

    /// The name of a priority on the wire.
    pub open spec fn name(self) -> Seq<char> {
        match self {
            LogPriority::Emergency => "emergency"@,
            LogPriority::Alert => "alert"@,
            LogPriority::Critical => "critical"@,
            LogPriority::Error => "error"@,
            LogPriority::Warning => "warning"@,
            LogPriority::Notice => "notice"@,
            LogPriority::Info => "info"@,
            LogPriority::Debug => "debug"@,
        }
    }

    /// The priority a name on the wire stands for; an unknown name is `Info`.
    pub open spec fn named(s: Seq<char>) -> LogPriority {
        if s == "emergency"@ {
            LogPriority::Emergency
        } else if s == "alert"@ {
            LogPriority::Alert
        } else if s == "critical"@ {
            LogPriority::Critical
        } else if s == "error"@ {
            LogPriority::Error
        } else if s == "warning"@ {
            LogPriority::Warning
        } else if s == "notice"@ {
            LogPriority::Notice
        } else if s == "debug"@ {
            LogPriority::Debug
        } else {
            LogPriority::Info
        }
    }
}

/// How far a dump has been dealt with.
#[derive(Debug, Clone, Copy, PartialEq, Eq, Structural)]
pub enum LogStatus {
    Pending,
    Retrieved,
    Processed,
}

/// What an optional text holds.
pub open spec fn text_option(s: Option<String>) -> Option<Seq<char>> {
    match s {
        Some(t) => Some(t@),
        None => None,
    }
}

/// What a list of texts holds.
pub open spec fn texts(v: Seq<String>) -> Seq<Seq<char>> {
    v.map_values(|s: String| s@)
}

/// A copy of a list of texts.
pub fn copy_texts(v: &Vec<String>) -> (r: Vec<String>)
    ensures
        r@ == v@,
{
    let mut r: Vec<String> = Vec::new();
    let mut i: usize = 0;
    while i < v.len()
        invariant
            i <= v@.len(),
            r@ == v@.take(i as int),
        decreases v@.len() - i,
    {
        r.push(v[i].clone());
        assert(r@ =~= v@.take(i as int + 1));
        i += 1;
    }
    assert(v@.take(i as int) =~= v@);
    r
}

/// A copy of an optional text.
pub fn copy_text(s: &Option<String>) -> (r: Option<String>)
    ensures
        r == *s,
{
    match s {
        Some(t) => Some(t.clone()),
        None => None,
    }
}

/// What a reader of logs asks for.
#[derive(Debug, Clone)]
pub struct LogFilter {
    /// Only this source.
    pub source: Option<String>,
    /// Only messages that hold this text.
    pub pattern: Option<String>,
    /// Only entries as severe as this or more.
    pub priority: Option<LogPriority>,
    /// Nothing from before this instant.
    pub since: Option<Timestamp>,
    /// Nothing from after this instant.
    pub until: Option<Timestamp>,
    /// The number of entries wanted, counted from the newest.
    pub tail: Option<usize>,
    /// The number of entries wanted, where `tail` is absent.
    pub limit: Option<usize>,
    /// Only dumps of this type.
    pub log_type: Option<String>,
    /// Only dumps of this status.
    pub status: Option<LogStatus>,
    /// Resume behind the page that gave out this cursor.
    pub after: Option<String>,
}

impl LogFilter {
    /// The number of entries wanted, if the reader says.
    pub open spec fn wanted(self) -> Option<usize> {
        if self.tail is Some {
            self.tail
        } else {
            self.limit
        }
    }

    /// The number of entries to give out: 200 unless the reader says, and never
    /// more than 2000.
    pub open spec fn page_size(self) -> nat {
        match self.wanted() {
            Some(n) => if n <= 2000 {
                n as nat
            } else {
                2000
            },
            None => 200,
        }
    }

    /// The number of entries to give out.
    pub fn entries_wanted(&self) -> (n: usize)
        ensures
            n == self.page_size(),
    {
        let wanted: Option<usize> = match self.tail {
            Some(n) => Some(n),
            None => self.limit,
        };
        match wanted {
            Some(n) => if n <= 2000 {
                n
            } else {
                2000
            },
            None => 200,
        }
    }

    /// A source passes the filter.
    pub open spec fn passes_source(self, source: Seq<char>) -> bool {
        self.source matches Some(want) ==> want@ == source
    }

    /// Whether a source passes the filter.
    pub fn takes_source(&self, source: &str) -> (r: bool)
        ensures
            r == self.passes_source(source@),
    {
        match &self.source {
            Some(want) => crate::text::same_text(want.as_str(), source),
            None => true,
        }
    }

    /// An instant lies within the filter's bounds.
    pub open spec fn passes_time(self, t: Timestamp) -> bool {
        &&& self.since matches Some(s) ==> !t.before(s)
        &&& self.until matches Some(u) ==> !u.before(t)
    }

    /// Whether an instant lies within the filter's bounds.
    pub fn takes_time(&self, t: &Timestamp) -> (r: bool)
        ensures
            r == self.passes_time(*t),
    {
        let late_enough = match &self.since {
            Some(s) => !t.is_before(s),
            None => true,
        };
        let early_enough = match &self.until {
            Some(u) => !u.is_before(t),
            None => true,
        };
        late_enough && early_enough
    }

    /// A message passes the filter.
    pub open spec fn passes_message(self, message: Seq<char>) -> bool {
        self.pattern matches Some(p) ==> crate::text::occurs_in(p@, message)
    }

    /// Whether a message passes the filter.
    pub fn takes_message(&self, message: &str) -> (r: bool)
        ensures
            r == self.passes_message(message@),
    {
        match &self.pattern {
            Some(p) => crate::text::contains_text(message, p.as_str()),
            None => true,
        }
    }

    /// A priority passes the filter: it is as severe as the threshold or more.
    pub open spec fn passes_priority(self, p: LogPriority) -> bool {
        self.priority matches Some(t) ==> p.level() <= t.level()
    }

    /// Whether a priority passes the filter.
    pub fn takes_priority(&self, p: LogPriority) -> (r: bool)
        ensures
            r == self.passes_priority(p),
    {
        match self.priority {
            Some(t) => p.at_least(t),
            None => true,
        }
    }
}

impl Default for LogFilter {
    /// The filter that asks for everything.
    fn default() -> (f: LogFilter)
        ensures
            f.source is None && f.pattern is None && f.priority is None && f.since is None
                && f.until is None && f.tail is None && f.limit is None && f.log_type is None
                && f.status is None && f.after is None,
    {
        LogFilter {
            source: None,
            pattern: None,
            priority: None,
            since: None,
            until: None,
            tail: None,
            limit: None,
            log_type: None,
            status: None,
            after: None,
        }
    }
}

/// One log entry: a line, or a dump that can be fetched.
#[derive(Debug, Clone)]
pub struct LogEntry {
    pub id: String,
    pub timestamp: Timestamp,
    pub priority: LogPriority,
    pub message: String,
    pub source: Option<String>,
    pub log_type: Option<String>,
    pub size: Option<u64>,
    pub status: Option<LogStatus>,
}

/// What a log entry says.
pub struct EntryView {
    pub id: Seq<char>,
    pub timestamp: Timestamp,
    pub priority: LogPriority,
    pub message: Seq<char>,
    pub source: Option<Seq<char>>,
    pub log_type: Option<Seq<char>>,
    pub size: Option<u64>,
    pub status: Option<LogStatus>,
}

impl View for LogEntry {
    type V = EntryView;

    open spec fn view(&self) -> EntryView {
        EntryView {
            id: self.id@,
            timestamp: self.timestamp,
            priority: self.priority,
            message: self.message@,
            source: text_option(self.source),
            log_type: text_option(self.log_type),
            size: self.size,
            status: self.status,
        }
    }
}

/// What a list of entries says.
pub open spec fn entries_view(v: Seq<LogEntry>) -> Seq<EntryView> {
    v.map_values(|e: LogEntry| e@)
}

/// One page of log entries.
#[derive(Debug, Clone)]
pub struct LogPage {
    pub items: Vec<LogEntry>,
    /// Where the next page begins; absent where nothing is left to read.
    pub next_cursor: Option<String>,
    /// Where the oldest entry still held begins; absent where the source cannot
    /// be paged.
    pub oldest_cursor: Option<String>,
}

/// The wire name of a priority.
pub fn priority_name(p: LogPriority) -> (r: &'static str)
    ensures
        r@ == p.name(),
{
    match p {
        LogPriority::Emergency => "emergency",
        LogPriority::Alert => "alert",
        LogPriority::Critical => "critical",
        LogPriority::Error => "error",
        LogPriority::Warning => "warning",
        LogPriority::Notice => "notice",
        LogPriority::Info => "info",
        LogPriority::Debug => "debug",
    }
}

/// The priority that a wire name stands for.
pub fn priority_from_name(s: &str) -> (p: LogPriority)
    ensures
        p == LogPriority::named(s@),
{
    if crate::text::same_text(s, "emergency") {
        LogPriority::Emergency
    } else if crate::text::same_text(s, "alert") {
        LogPriority::Alert
    } else if crate::text::same_text(s, "critical") {
        LogPriority::Critical
    } else if crate::text::same_text(s, "error") {
        LogPriority::Error
    } else if crate::text::same_text(s, "warning") {
        LogPriority::Warning
    } else if crate::text::same_text(s, "notice") {
        LogPriority::Notice
    } else if crate::text::same_text(s, "debug") {
        LogPriority::Debug
    } else {
        LogPriority::Info
    }
}

/// A priority keeps through its wire name.
pub proof fn law_priority_names(p: LogPriority)
    ensures
        LogPriority::named(p.name()) == p,
{
    reveal_strlit("emergency");
    reveal_strlit("alert");
    reveal_strlit("critical");
    reveal_strlit("error");
    reveal_strlit("warning");
    reveal_strlit("notice");
    reveal_strlit("info");
    reveal_strlit("debug");
    assert("alert"@[0] == 'a' && "error"@[0] == 'e' && "debug"@[0] == 'd');
    assert("warning"@.len() == 7 && "notice"@.len() == 6 && "critical"@.len() == 8
        && "emergency"@.len() == 9 && "info"@.len() == 4);
}

/// A threshold lets through what is as severe or more, from emergencies down to it.
pub proof fn law_a_threshold_lets_the_more_severe_through(f: LogFilter, p: LogPriority)
    ensures
        f.priority is None ==> f.passes_priority(p),
        f.priority == Some(LogPriority::Emergency) ==> (f.passes_priority(p) <==> p is Emergency),
        f.priority == Some(LogPriority::Alert) ==> (f.passes_priority(p) <==> p is Emergency || p
            is Alert),
        f.priority == Some(LogPriority::Critical) ==> (f.passes_priority(p) <==> p is Emergency || p
            is Alert || p is Critical),
        f.priority == Some(LogPriority::Error) ==> (f.passes_priority(p) <==> p is Emergency || p
            is Alert || p is Critical || p is Error),
        f.priority == Some(LogPriority::Warning) ==> (f.passes_priority(p) <==> !(p is Notice) && !(p
            is Info) && !(p is Debug)),
        f.priority == Some(LogPriority::Notice) ==> (f.passes_priority(p) <==> !(p is Info) && !(p
            is Debug)),
        f.priority == Some(LogPriority::Info) ==> (f.passes_priority(p) <==> !(p is Debug)),
        f.priority == Some(LogPriority::Debug) ==> f.passes_priority(p),
{
}

/// Each priority has its word, and a word that is none counts as information.
pub proof fn law_words_of_priorities(p: LogPriority, w: Seq<char>)
    ensures
        LogPriority::named(w) is Emergency <==> w == "emergency"@,
        LogPriority::named(w) is Alert <==> w == "alert"@,
        LogPriority::named(w) is Critical <==> w == "critical"@,
        LogPriority::named(w) is Error <==> w == "error"@,
        LogPriority::named(w) is Warning <==> w == "warning"@,
        LogPriority::named(w) is Notice <==> w == "notice"@,
        LogPriority::named(w) is Debug <==> w == "debug"@,
        p is Info ==> p.name() == "info"@,
{
    reveal_strlit("emergency");
    reveal_strlit("alert");
    reveal_strlit("critical");
    reveal_strlit("error");
    reveal_strlit("warning");
    reveal_strlit("notice");
    reveal_strlit("debug");
    assert("alert"@[0] == 'a' && "error"@[0] == 'e' && "debug"@[0] == 'd');
    assert("warning"@.len() == 7 && "notice"@.len() == 6 && "critical"@.len() == 8
        && "emergency"@.len() == 9);
}

/// Instants stand in one order: of two that differ exactly one comes before the other,
/// the one with fewer seconds, or with fewer nanoseconds in the same second.
pub proof fn law_instants_stand_in_order(a: Timestamp, b: Timestamp, c: Timestamp)
    ensures
        !a.before(a),
        a.before(b) ==> !b.before(a),
        a.before(b) && b.before(c) ==> a.before(c),
        a.seconds() < b.seconds() ==> a.before(b),
        a.seconds() == b.seconds() ==> (a.before(b) <==> a.nanoseconds() < b.nanoseconds()),
        !a.before(b) && !b.before(a) <==> a == b,
        epoch_time().seconds() == 0 && epoch_time().nanoseconds() == 0,
{
}

/// The bounds of a filter are part of what it lets through; what lies outside them is
/// not, and without bounds everything is let through.
pub proof fn law_the_bounds_belong_to_the_filter(f: LogFilter, t: Timestamp)
    ensures
        f.since is None && f.until is None ==> f.passes_time(t),
        f.since matches Some(s) && t.before(s) ==> !f.passes_time(t),
        f.until matches Some(u) && u.before(t) ==> !f.passes_time(t),
        f.since == Some(t) && f.until is None ==> f.passes_time(t),
        f.until == Some(t) && f.since is None ==> f.passes_time(t),
        f.since == Some(t) && f.until == Some(t) ==> f.passes_time(t),
        (f.since matches Some(s) && s.before(t)) && (f.until matches Some(u) && t.before(u))
            ==> f.passes_time(t),
{
}

/// A filter that names a source lets that source through and no other; one with a
/// pattern lets a message through exactly when the pattern stands in it.
pub proof fn law_what_is_asked_for_passes(
    f: LogFilter,
    source: Seq<char>,
    head: Seq<char>,
    tail: Seq<char>,
    message: Seq<char>,
)
    ensures
        f.source is None ==> f.passes_source(source),
        f.source matches Some(want) ==> (f.passes_source(source) <==> want@ == source),
        f.pattern is None ==> f.passes_message(message),
        f.pattern matches Some(p) ==> f.passes_message(head + p@ + tail),
        f.pattern matches Some(p) ==> (f.passes_message(message) ==> message.len() >= p@.len()),
{
    if let Some(p) = f.pattern {
        let whole = head + p@ + tail;
        assert(whole.subrange(head.len() as int, head.len() as int + p@.len()) =~= p@);
        assert(crate::text::stands_at(whole, p@, head.len() as int));
    }
}

/// A page holds as many entries as are asked for, up to two thousand; where both ends
/// are asked for the tail counts, and where neither is, two hundred.
pub proof fn law_how_many_entries_are_given_out(f: LogFilter)
    ensures
        f.tail matches Some(n) ==> (n <= 2000 ==> f.page_size() == n),
        f.tail is None ==> (f.limit matches Some(n) ==> (n <= 2000 ==> f.page_size() == n)),
        f.tail is None && f.limit is None ==> f.page_size() == 200,
        f.page_size() <= 2000,
        f.tail matches Some(n) && n > 2000 ==> f.page_size() == 2000,
        f.tail is None ==> (f.limit matches Some(n) && n > 2000 ==> f.page_size() == 2000),
{
}

} // verus!
