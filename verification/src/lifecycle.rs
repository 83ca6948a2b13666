//! What a component is seen to do, and what it is meant to do.
//!
//! An observation says what was seen, the evidence for it and how long it has
//! held. It never says whether that is too long: a deadline belongs to whoever
//! waits.

use crate::backend::guest::{member32, truncate32, GuestHealth};
use crate::json::{
    json_of, member, members_of, new_object, no_members, object_value, put, text_in, text_value,
    unsigned_in, unsigned_value, Json,
};
use crate::logs::entry::text_option;
use crate::text::same_text;
use serde_json::{Map as JsonMap, Value};
use vstd::prelude::*;

verus! {

/// What a component is meant to do.
#[derive(Debug, Clone, Copy, PartialEq, Eq, Structural)]
pub enum ExpectedState {
    Running,
    Stopped,
}

impl ExpectedState {
    /// The word for an intent.
    pub open spec fn word(self) -> Seq<char> {
        match self {
            ExpectedState::Running => "running"@,
            ExpectedState::Stopped => "stopped"@,
        }
    }

    /// The word for an intent.
    pub fn as_str(self) -> (r: &'static str)
        ensures
            r@ == self.word(),
    {
        match self {
            ExpectedState::Running => "running",
            ExpectedState::Stopped => "stopped",
        }
    }
}

/// Whether what is seen agrees with what is meant.
#[derive(Debug, Clone, Copy, PartialEq, Eq, Structural)]
pub enum Convergence {
    /// It agrees.
    Converged,
    /// It will agree without anyone doing anything.
    Transitioning,
    /// It contradicts.
    Diverged,
}

impl Convergence {
    /// The word for a verdict.
    pub open spec fn word(self) -> Seq<char> {
        match self {
            Convergence::Converged => "converged"@,
            Convergence::Transitioning => "transitioning"@,
            Convergence::Diverged => "diverged"@,
        }
    }

    /// The word for a verdict.
    pub fn as_str(self) -> (r: &'static str)
        ensures
            r@ == self.word(),
    {
        match self {
            Convergence::Converged => "converged",
            Convergence::Transitioning => "transitioning",
            Convergence::Diverged => "diverged",
        }
    }
}

/// The coarse state of a component.
#[derive(Debug, Clone, Copy, PartialEq, Eq, Structural)]
pub enum RuntimeStatus {
    Running,
    Booting,
    Faulted,
    ShuttingDown,
    Stopped,
    Unknown,
}

/// The coarse state of a component, with everything that was seen.
#[derive(Debug)]
pub struct RuntimeState {
    pub status: RuntimeStatus,
    pub detail: Value,
}

/// The reason that a disabled component gives.
pub const ADMIN_DISABLED_REASON: &'static str = "administratively disabled";

/// What a component was seen to do at one moment.
#[derive(Debug, Clone, PartialEq, Eq)]
pub struct GuestLifecycle {
    pub status: String,
    pub guest_state: Option<u32>,
    pub hb_seq: Option<u32>,
    /// A number that is another one in every life of the guest.
    pub boot_id: Option<u32>,
    /// How long the status has held.
    pub for_ms: Option<u64>,
    pub since_unix_secs: Option<u64>,
    pub reason: Option<String>,
    /// What the component is meant to do; nothing where nobody asked.
    pub expected: Option<ExpectedState>,
    pub expected_by: Option<String>,
    /// How long that has been meant.
    pub expected_for_ms: Option<u64>,
}

/// The intent that a word names.
pub open spec fn intent(word: Option<Seq<char>>) -> Option<ExpectedState> {
    match word {
        Some(w) => if w == "running"@ {
            Some(ExpectedState::Running)
        } else if w == "stopped"@ {
            Some(ExpectedState::Stopped)
        } else {
            None
        },
        None => None,
    }
}

/// The text of a member, where it has one.
pub open spec fn text_of_member(j: Json, key: Seq<char>) -> Option<Seq<char>> {
    match j.member(key) {
        Some(m) => m.text(),
        None => None,
    }
}

/// The number of a member, where it has one.
pub open spec fn number_of_member(j: Json, key: Seq<char>) -> Option<u64> {
    match j.member(key) {
        Some(m) => m.unsigned(),
        None => None,
    }
}

/// A document says what a lifecycle holds.
pub open spec fn parsed_as(j: Json, l: GuestLifecycle) -> bool {
    &&& text_of_member(j, "status"@) == Some(l.status@)
    &&& l.guest_state == member32(j, "guest_state"@)
    &&& l.hb_seq == member32(j, "hb_seq"@)
    &&& l.boot_id == member32(j, "boot_id"@)
    &&& l.for_ms == number_of_member(j, "for_ms"@)
    &&& l.since_unix_secs == number_of_member(j, "since_unix_secs"@)
    &&& text_option(l.reason) == text_of_member(j, "reason"@)
    &&& l.expected == intent(text_of_member(j, "expected"@))
    &&& text_option(l.expected_by) == text_of_member(j, "expected_by"@)
    &&& l.expected_for_ms == number_of_member(j, "expected_for_ms"@)
}

/// The answer on reading a document.
pub open spec fn lifecycle_read(j: Json, r: Result<GuestLifecycle, String>) -> bool {
    match r {
        Ok(l) => parsed_as(j, l),
        Err(why) => text_of_member(j, "status"@) is None && why@
            == "health response missing status"@,
    }
}

fn text_under(v: &Value, key: &str) -> (r: Option<String>)
    ensures
        text_option(r) == text_of_member(json_of(*v), key@),
{
    match member(v, key) {
        Some(m) => text_in(m),
        None => None,
    }
}

fn number_under(v: &Value, key: &str) -> (r: Option<u64>)
    ensures
        r == number_of_member(json_of(*v), key@),
{
    match member(v, key) {
        Some(m) => unsigned_in(m),
        None => None,
    }
}

fn short_under(v: &Value, key: &str) -> (r: Option<u32>)
    ensures
        r == member32(json_of(*v), key@),
{
    match member(v, key) {
        Some(m) => match unsigned_in(m) {
            Some(n) => Some(truncate32(n)),
            None => None,
        },
        None => None,
    }
}

/// The intent that a health report names under `expected`. A report that names none,
/// names it otherwise than with a text, or uses a word that is not known here says
/// nothing of it.
pub fn parse_expected(v: &Value) -> (r: Option<ExpectedState>)
    ensures
        r == intent(text_of_member(json_of(*v), "expected"@)),
{
    match text_under(v, "expected") {
        Some(w) => if same_text(w.as_str(), "running") {
            Some(ExpectedState::Running)
        } else if same_text(w.as_str(), "stopped") {
            Some(ExpectedState::Stopped)
        } else {
            None
        },
        None => None,
    }
}

/// Reading an intent undoes writing it, and any other word is no intent.
pub proof fn law_intent_survives_its_word(e: ExpectedState, w: Seq<char>)
    ensures
        intent(Some(e.word())) == Some(e),
        intent(Some(w)) == Some(e) ==> w == e.word(),
        intent(None) is None,
{
    reveal_strlit("running");
    reveal_strlit("stopped");
    assert("running"@[0] == 'r' && "stopped"@[0] == 's');
}

/// A status that means that there is no process.
pub open spec fn down_word(status: Seq<char>) -> bool {
    status == "stopped"@ || status == "failed"@
}

/// The verdict on a status, the state that a guest reports and an intent.
pub open spec fn verdict(
    expected: Option<ExpectedState>,
    status: Seq<char>,
    guest_state: Option<u32>,
) -> Option<Convergence> {
    match expected {
        None => None,
        Some(ExpectedState::Running) => if status == "running"@ && guest_state == Some(1u32) {
            Some(Convergence::Converged)
        } else if down_word(status) {
            Some(Convergence::Diverged)
        } else if status == "starting"@ || status == "shutting_down"@ || status == "unhealthy"@
            || status == "running"@ {
            Some(Convergence::Transitioning)
        } else {
            None
        },
        Some(ExpectedState::Stopped) => if down_word(status) {
            Some(Convergence::Converged)
        } else if status == "starting"@ || status == "shutting_down"@ {
            Some(Convergence::Transitioning)
        } else if status == "running"@ || status == "unhealthy"@ || status == "unknown"@ {
            Some(Convergence::Diverged)
        } else {
            None
        },
    }
}

/// The coarse state that a status stands for.
pub open spec fn coarse(status: Seq<char>) -> RuntimeStatus {
    if status == "running"@ {
        RuntimeStatus::Running
    } else if status == "starting"@ {
        RuntimeStatus::Booting
    } else if status == "unhealthy"@ || status == "failed"@ {
        RuntimeStatus::Faulted
    } else if status == "shutting_down"@ {
        RuntimeStatus::ShuttingDown
    } else if status == "stopped"@ {
        RuntimeStatus::Stopped
    } else {
        RuntimeStatus::Unknown
    }
}

/// The members with a text under a key, where there is one.
pub open spec fn with_text(m: Map<Seq<char>, Json>, key: Seq<char>, s: Option<Seq<char>>) -> Map<
    Seq<char>,
    Json,
> {
    match s {
        Some(t) => m.insert(key, Json::Text(t)),
        None => m,
    }
}

/// The members with a number under a key, where there is one.
pub open spec fn with_number(m: Map<Seq<char>, Json>, key: Seq<char>, n: Option<u64>) -> Map<
    Seq<char>,
    Json,
> {
    match n {
        Some(v) => m.insert(key, Json::Unsigned(v)),
        None => m,
    }
}

/// A short number as a long one.
pub open spec fn long(n: Option<u32>) -> Option<u64> {
    match n {
        Some(v) => Some(v as u64),
        None => None,
    }
}

/// The word for an intent, where there is one.
pub open spec fn intent_word(e: Option<ExpectedState>) -> Option<Seq<char>> {
    match e {
        Some(x) => Some(x.word()),
        None => None,
    }
}

/// The word for a verdict, where there is one.
pub open spec fn verdict_word(c: Option<Convergence>) -> Option<Seq<char>> {
    match c {
        Some(x) => Some(x.word()),
        None => None,
    }
}

/// The members with what is meant.
pub open spec fn with_intent(
    m: Map<Seq<char>, Json>,
    expected: Option<ExpectedState>,
    by: Option<Seq<char>>,
    for_ms: Option<u64>,
) -> Map<Seq<char>, Json> {
    with_number(
        with_text(
            with_text(m, "lifecycle_expected"@, intent_word(expected)),
            "lifecycle_expected_by"@,
            by,
        ),
        "lifecycle_expected_for_ms"@,
        for_ms,
    )
}

/// The members with what is meant and the verdict.
pub open spec fn with_expectation(m: Map<Seq<char>, Json>, l: GuestLifecycle) -> Map<
    Seq<char>,
    Json,
> {
    with_text(
        with_intent(m, l.expected, text_option(l.expected_by), l.expected_for_ms),
        "lifecycle_convergence"@,
        verdict_word(verdict(l.expected, l.status@, l.guest_state)),
    )
}

/// The members with everything that was seen, what is meant and the verdict. What
/// is not known is left out.
pub open spec fn with_lifecycle(m: Map<Seq<char>, Json>, l: GuestLifecycle) -> Map<Seq<char>, Json> {
    let m = with_number(m, "hb_seq"@, long(l.hb_seq));
    let m = with_number(m, "boot_id"@, long(l.boot_id));
    let m = with_number(m, "guest_state"@, long(l.guest_state));
    let m = m.insert("lifecycle_status"@, Json::Text(l.status@));
    let m = with_number(m, "lifecycle_for_ms"@, l.for_ms);
    let m = with_number(m, "lifecycle_since"@, l.since_unix_secs);
    let m = with_text(m, "lifecycle_reason"@, text_option(l.reason));
    with_expectation(m, l)
}

/// The members that a disabled component shows: it is meant to be stopped, and
/// nothing was looked at.
pub open spec fn with_disabled(m: Map<Seq<char>, Json>) -> Map<Seq<char>, Json> {
    with_intent(
        m.insert("lifecycle_status"@, Json::Text("stopped"@)).insert(
            "lifecycle_reason"@,
            Json::Text(ADMIN_DISABLED_REASON@),
        ),
        Some(ExpectedState::Stopped),
        Some("admin_disable"@),
        None,
    )
}

/// What a probe saw, and nothing else.
pub open spec fn probed(health: GuestHealth, l: GuestLifecycle) -> bool {
    &&& l.status@ == health.status@
    &&& l.guest_state == Some(health.guest_state)
    &&& l.hb_seq == Some(health.hb_seq)
    &&& l.boot_id == Some(health.boot_id)
    &&& l.for_ms is None
    &&& l.since_unix_secs is None
    &&& l.reason is None
    &&& l.expected is None
    &&& l.expected_by is None
    &&& l.expected_for_ms is None
}

fn put_text(m: &mut JsonMap<String, Value>, key: &str, s: Option<&str>)
    ensures
        members_of(*final(m)) == with_text(
            members_of(*old(m)),
            key@,
            match s {
                Some(t) => Some(t@),
                None => None,
            },
        ),
{
    if let Some(t) = s {
        put(m, key, text_value(t));
    }
}

fn put_number(m: &mut JsonMap<String, Value>, key: &str, n: Option<u64>)
    ensures
        members_of(*final(m)) == with_number(members_of(*old(m)), key@, n),
{
    if let Some(v) = n {
        put(m, key, unsigned_value(v));
    }
}

fn as_long(n: Option<u32>) -> (r: Option<u64>)
    ensures
        r == long(n),
{
    match n {
        Some(v) => Some(v as u64),
        None => None,
    }
}

fn insert_expectation(
    runtime: &mut JsonMap<String, Value>,
    expected: Option<ExpectedState>,
    expected_by: Option<&str>,
    expected_for_ms: Option<u64>,
)
    ensures
        members_of(*final(runtime)) == with_intent(
            members_of(*old(runtime)),
            expected,
            match expected_by {
                Some(b) => Some(b@),
                None => None,
            },
            expected_for_ms,
        ),
{
    let word: Option<&str> = match expected {
        Some(e) => Some(e.as_str()),
        None => None,
    };
    put_text(runtime, "lifecycle_expected", word);
    put_text(runtime, "lifecycle_expected_by", expected_by);
    put_number(runtime, "lifecycle_expected_for_ms", expected_for_ms);
}

/// Writes what a disabled component shows. It is not judged: nothing was looked at
/// that could be compared with the intent.
pub fn insert_admin_disabled_fields(runtime: &mut JsonMap<String, Value>)
    ensures
        members_of(*final(runtime)) == with_disabled(members_of(*old(runtime))),
{
    put(runtime, "lifecycle_status", text_value("stopped"));
    put(runtime, "lifecycle_reason", text_value(ADMIN_DISABLED_REASON));
    insert_expectation(runtime, Some(ExpectedState::Stopped), Some("admin_disable"), None);
}

fn borrowed(s: &Option<String>) -> (r: Option<&str>)
    ensures
        text_option(*s) == (match r {
            Some(t) => Some(t@),
            None => None,
        }),
{
    match s {
        Some(t) => Some(t.as_str()),
        None => None,
    }
}

impl GuestLifecycle {
    /// Reads the document on the health of a guest. Only the status is needed.
    pub fn from_json(json: &Value) -> (r: Result<GuestLifecycle, String>)
        ensures
            lifecycle_read(json_of(*json), r),
    {
        let status = match text_under(json, "status") {
            Some(s) => s,
            None => {
                return Err("health response missing status".to_owned());
            },
        };
        Ok(
            GuestLifecycle {
                status,
                guest_state: short_under(json, "guest_state"),
                hb_seq: short_under(json, "hb_seq"),
                boot_id: short_under(json, "boot_id"),
                for_ms: number_under(json, "for_ms"),
                since_unix_secs: number_under(json, "since_unix_secs"),
                reason: text_under(json, "reason"),
                expected: parse_expected(json),
                expected_by: text_under(json, "expected_by"),
                expected_for_ms: number_under(json, "expected_for_ms"),
            },
        )
    }

    /// What a probe saw. A probe has no clock and knows of no intent.
    pub fn from_probe(health: &GuestHealth) -> (r: GuestLifecycle)
        ensures
            probed(*health, r),
    {
        GuestLifecycle {
            status: health.status.clone(),
            guest_state: Some(health.guest_state),
            hb_seq: Some(health.hb_seq),
            boot_id: Some(health.boot_id),
            for_ms: None,
            since_unix_secs: None,
            reason: None,
            expected: None,
            expected_by: None,
            expected_for_ms: None,
        }
    }

    /// There is no process.
    pub fn is_down(&self) -> (r: bool)
        ensures
            r == down_word(self.status@),
    {
        same_text(self.status.as_str(), "stopped") || same_text(self.status.as_str(), "failed")
    }

    /// Nothing will change unless someone does something.
    pub open spec fn failed(self) -> bool {
        self.status@ == "failed"@
    }

    /// Nothing will change unless someone does something.
    pub fn is_failed(&self) -> (r: bool)
        ensures
            r == self.failed(),
    {
        same_text(self.status.as_str(), "failed")
    }

    /// The guest runs, and says so.
    pub open spec fn up(self) -> bool {
        self.status@ == "running"@ && self.guest_state == Some(1u32)
    }

    /// The guest runs, and says so.
    pub fn is_up(&self) -> (r: bool)
        ensures
            r == self.up(),
    {
        let says_so = match self.guest_state {
            Some(s) => s == 1,
            None => false,
        };
        same_text(self.status.as_str(), "running") && says_so
    }

    /// Whether what is seen agrees with what is meant; nothing where there is no
    /// ground for a verdict.
    pub fn convergence(&self) -> (r: Option<Convergence>)
        ensures
            r == verdict(self.expected, self.status@, self.guest_state),
    {
        let status = self.status.as_str();
        match self.expected {
            None => None,
            Some(ExpectedState::Running) => {
                if self.is_up() {
                    Some(Convergence::Converged)
                } else if self.is_down() {
                    Some(Convergence::Diverged)
                } else if same_text(status, "starting") || same_text(status, "shutting_down")
                    || same_text(status, "unhealthy") || same_text(status, "running") {
                    Some(Convergence::Transitioning)
                } else {
                    None
                }
            },
            Some(ExpectedState::Stopped) => {
                if self.is_down() {
                    Some(Convergence::Converged)
                } else if same_text(status, "starting") || same_text(status, "shutting_down") {
                    Some(Convergence::Transitioning)
                } else if same_text(status, "running") || same_text(status, "unhealthy")
                    || same_text(status, "unknown") {
                    Some(Convergence::Diverged)
                } else {
                    None
                }
            },
        }
    }

    /// The coarse state of the component. A status that is not known is no error.
    pub fn runtime_status(&self) -> (r: RuntimeStatus)
        ensures
            r == coarse(self.status@),
    {
        let status = self.status.as_str();
        if same_text(status, "running") {
            RuntimeStatus::Running
        } else if same_text(status, "starting") {
            RuntimeStatus::Booting
        } else if same_text(status, "unhealthy") || same_text(status, "failed") {
            RuntimeStatus::Faulted
        } else if same_text(status, "shutting_down") {
            RuntimeStatus::ShuttingDown
        } else if same_text(status, "stopped") {
            RuntimeStatus::Stopped
        } else {
            RuntimeStatus::Unknown
        }
    }

    /// The coarse state of the component, with everything that was seen.
    pub fn runtime_state(&self) -> (r: RuntimeState)
        ensures
            r.status == coarse(self.status@),
            json_of(r.detail) == Json::Object(with_lifecycle(no_members(), *self)),
    {
        let mut detail = new_object();
        self.insert_runtime_fields(&mut detail);
        RuntimeState { status: self.runtime_status(), detail: object_value(detail) }
    }

    /// Writes everything that was seen, what is meant and the verdict.
    pub fn insert_runtime_fields(&self, runtime: &mut JsonMap<String, Value>)
        ensures
            members_of(*final(runtime)) == with_lifecycle(members_of(*old(runtime)), *self),
    {
        put_number(runtime, "hb_seq", as_long(self.hb_seq));
        put_number(runtime, "boot_id", as_long(self.boot_id));
        put_number(runtime, "guest_state", as_long(self.guest_state));
        put(runtime, "lifecycle_status", text_value(self.status.as_str()));
        put_number(runtime, "lifecycle_for_ms", self.for_ms);
        put_number(runtime, "lifecycle_since", self.since_unix_secs);
        put_text(runtime, "lifecycle_reason", borrowed(&self.reason));
        self.insert_expectation_fields(runtime);
    }

    /// Writes what is meant and the verdict.
    pub fn insert_expectation_fields(&self, runtime: &mut JsonMap<String, Value>)
        ensures
            members_of(*final(runtime)) == with_expectation(members_of(*old(runtime)), *self),
    {
        insert_expectation(
            runtime,
            self.expected,
            borrowed(&self.expected_by),
            self.expected_for_ms,
        );
        let word: Option<&str> = match self.convergence() {
            Some(c) => Some(c.as_str()),
            None => None,
        };
        put_text(runtime, "lifecycle_convergence", word);
    }
}

proof fn lemma_words_differ()
    ensures
        "running"@ != "stopped"@,
        "running"@ != "failed"@,
        "stopped"@ != "failed"@,
{
    reveal_strlit("running");
    reveal_strlit("stopped");
    reveal_strlit("failed");
    assert("running"@[0] == 'r');
    assert("stopped"@[0] == 's');
    assert("failed"@[0] == 'f');
}

/// A component is never up and down at once, and a failed one is down.
pub proof fn law_up_and_down_exclude_each_other(l: GuestLifecycle)
    ensures
        !(l.up() && down_word(l.status@)),
        l.status@ == "failed"@ ==> down_word(l.status@),
{
    lemma_words_differ();
}

/// A component that is meant to run agrees with that exactly when it is up, and
/// contradicts it exactly when it is down.
pub proof fn law_meant_to_run(status: Seq<char>, guest_state: Option<u32>)
    ensures
        (verdict(Some(ExpectedState::Running), status, guest_state) == Some(
            Convergence::Converged,
        )) == (status == "running"@ && guest_state == Some(1u32)),
        (verdict(Some(ExpectedState::Running), status, guest_state) == Some(Convergence::Diverged))
            == down_word(status),
{
    lemma_words_differ();
}

/// A component that is meant to be stopped agrees with that exactly when it is
/// down, whatever its guest reports.
pub proof fn law_meant_to_be_stopped(status: Seq<char>, guest_state: Option<u32>)
    ensures
        (verdict(Some(ExpectedState::Stopped), status, guest_state) == Some(
            Convergence::Converged,
        )) == down_word(status),
{
}

proof fn lemma_keys()
    ensures
        "guest_state"@ != "hb_seq"@,
        "guest_state"@ != "boot_id"@,
        "guest_state"@ != "lifecycle_status"@,
        "guest_state"@ != "lifecycle_for_ms"@,
        "guest_state"@ != "lifecycle_since"@,
        "guest_state"@ != "lifecycle_reason"@,
        "guest_state"@ != "lifecycle_expected"@,
        "guest_state"@ != "lifecycle_expected_by"@,
        "guest_state"@ != "lifecycle_expected_for_ms"@,
        "guest_state"@ != "lifecycle_convergence"@,
        "lifecycle_status"@ != "lifecycle_for_ms"@,
        "lifecycle_status"@ != "lifecycle_since"@,
        "lifecycle_status"@ != "lifecycle_reason"@,
        "lifecycle_status"@ != "lifecycle_expected"@,
        "lifecycle_status"@ != "lifecycle_expected_by"@,
        "lifecycle_status"@ != "lifecycle_expected_for_ms"@,
        "lifecycle_status"@ != "lifecycle_convergence"@,
        "lifecycle_expected"@ != "lifecycle_expected_by"@,
        "lifecycle_expected"@ != "lifecycle_expected_for_ms"@,
        "lifecycle_expected"@ != "lifecycle_convergence"@,
        "lifecycle_expected"@ != "hb_seq"@,
        "lifecycle_expected"@ != "boot_id"@,
        "lifecycle_expected"@ != "lifecycle_for_ms"@,
        "lifecycle_expected"@ != "lifecycle_since"@,
        "lifecycle_expected"@ != "lifecycle_reason"@,
        "lifecycle_convergence"@ != "hb_seq"@,
        "lifecycle_convergence"@ != "boot_id"@,
        "lifecycle_convergence"@ != "lifecycle_for_ms"@,
        "lifecycle_convergence"@ != "lifecycle_since"@,
        "lifecycle_convergence"@ != "lifecycle_reason"@,
        "lifecycle_convergence"@ != "lifecycle_expected_by"@,
        "lifecycle_convergence"@ != "lifecycle_expected_for_ms"@,
{
    reveal_strlit("hb_seq");
    reveal_strlit("boot_id");
    reveal_strlit("guest_state");
    reveal_strlit("lifecycle_status");
    reveal_strlit("lifecycle_for_ms");
    reveal_strlit("lifecycle_since");
    reveal_strlit("lifecycle_reason");
    reveal_strlit("lifecycle_expected");
    reveal_strlit("lifecycle_expected_by");
    reveal_strlit("lifecycle_expected_for_ms");
    reveal_strlit("lifecycle_convergence");
    assert("guest_state"@.len() == 11);
    assert("lifecycle_status"@.len() == 16 && "lifecycle_status"@[10] == 's');
    assert("lifecycle_for_ms"@.len() == 16 && "lifecycle_for_ms"@[10] == 'f');
    assert("lifecycle_reason"@.len() == 16 && "lifecycle_reason"@[10] == 'r');
    assert("lifecycle_since"@.len() == 15);
    assert("lifecycle_expected"@.len() == 18);
    assert("lifecycle_convergence"@.len() == 21 && "lifecycle_convergence"@[10] == 'c');
    assert("lifecycle_expected_by"@.len() == 21 && "lifecycle_expected_by"@[10] == 'e');
    assert("lifecycle_expected_for_ms"@.len() == 25);
}

/// The number of a member, as the state that a guest reports.
pub open spec fn published_guest_state(m: Map<Seq<char>, Json>) -> Option<u32> {
    member32(Json::Object(m), "guest_state"@)
}

/// The verdict that a reader of a published document comes to.
pub open spec fn verdict_of_reader(m: Map<Seq<char>, Json>) -> Option<Convergence> {
    verdict(
        intent(text_of_member(Json::Object(m), "lifecycle_expected"@)),
        match text_of_member(Json::Object(m), "lifecycle_status"@) {
            Some(s) => s,
            None => Seq::empty(),
        },
        published_guest_state(m),
    )
}

/// The verdict can be worked out by whoever reads the document that it is
/// published in: everything that it depends on is there.
pub proof fn law_verdict_is_recomputable(m: Map<Seq<char>, Json>, l: GuestLifecycle)
    requires
        !m.contains_key("guest_state"@),
        !m.contains_key("lifecycle_expected"@),
        !m.contains_key("lifecycle_convergence"@),
    ensures
        text_of_member(Json::Object(with_lifecycle(m, l)), "lifecycle_convergence"@)
            == verdict_word(verdict_of_reader(with_lifecycle(m, l))),
        verdict_of_reader(with_lifecycle(m, l)) == verdict(l.expected, l.status@, l.guest_state),
{
    lemma_keys();
    lemma_words_differ();
    let out = with_lifecycle(m, l);
    assert(text_of_member(Json::Object(out), "lifecycle_status"@) == Some(l.status@));
    assert(intent(text_of_member(Json::Object(out), "lifecycle_expected"@)) == l.expected);
    assert(published_guest_state(out) == l.guest_state);
}

/// A disabled component shows no verdict.
pub proof fn law_disabled_shows_no_verdict(m: Map<Seq<char>, Json>)
    requires
        !m.contains_key("lifecycle_convergence"@),
    ensures
        !with_disabled(m).contains_key("lifecycle_convergence"@),
{
    lemma_keys();
}

proof fn lemma_all_words()
    ensures
        "running"@.len() == 7 && "running"@[0] == 'r',
        "stopped"@.len() == 7 && "stopped"@[0] == 's',
        "unknown"@.len() == 7 && "unknown"@[0] == 'u',
        "failed"@.len() == 6,
        "starting"@.len() == 8,
        "unhealthy"@.len() == 9,
        "converged"@.len() == 9 && "converged"@[0] == 'c',
        "diverged"@.len() == 8 && "diverged"@[0] == 'd',
        "shutting_down"@.len() == 13 && "shutting_down"@[0] == 's',
        "transitioning"@.len() == 13 && "transitioning"@[0] == 't',
{
    reveal_strlit("running");
    reveal_strlit("stopped");
    reveal_strlit("unknown");
    reveal_strlit("failed");
    reveal_strlit("starting");
    reveal_strlit("unhealthy");
    reveal_strlit("converged");
    reveal_strlit("diverged");
    reveal_strlit("shutting_down");
    reveal_strlit("transitioning");
}

/// A component is down exactly when it is stopped or has failed.
pub proof fn law_down_means_stopped_or_failed(status: Seq<char>)
    ensures
        down_word(status) <==> status == "stopped"@ || status == "failed"@,
{
}

/// A component that is neither where it is meant to be nor the opposite is on its way:
/// one that is meant to run while it starts, shuts down, is unhealthy or runs without
/// saying so; one that is meant to be stopped while it starts or shuts down. A stopped
/// intent is contradicted by a component that runs, is unhealthy or is not known. Where
/// nothing is meant, nothing is judged.
pub proof fn law_on_the_way_to_what_is_meant(status: Seq<char>, guest_state: Option<u32>)
    ensures
        verdict(Some(ExpectedState::Running), status, guest_state) == Some(
            Convergence::Transitioning,
        ) <==> status == "starting"@ || status == "shutting_down"@ || status == "unhealthy"@ || (
        status == "running"@ && guest_state != Some(1u32)),
        verdict(Some(ExpectedState::Stopped), status, guest_state) == Some(
            Convergence::Transitioning,
        ) <==> status == "starting"@ || status == "shutting_down"@,
        verdict(Some(ExpectedState::Stopped), status, guest_state) == Some(Convergence::Diverged)
            <==> status == "running"@ || status == "unhealthy"@ || status == "unknown"@,
        verdict(None, status, guest_state) is None,
{
    lemma_all_words();
}

/// Each intent and each verdict has its word.
pub proof fn law_words_of_intents_and_verdicts(e: ExpectedState, c: Convergence)
    ensures
        e.word() == "running"@ <==> e is Running,
        e.word() == "stopped"@ <==> e is Stopped,
        c.word() == "converged"@ <==> c is Converged,
        c.word() == "transitioning"@ <==> c is Transitioning,
        c.word() == "diverged"@ <==> c is Diverged,
        intent(Some("running"@)) == Some(ExpectedState::Running),
        intent(Some("stopped"@)) == Some(ExpectedState::Stopped),
{
    lemma_all_words();
}

/// Each word for a status stands for one coarse state, and an unknown word for none.
pub proof fn law_coarse_states(status: Seq<char>)
    ensures
        coarse(status) is Running <==> status == "running"@,
        coarse(status) is Booting <==> status == "starting"@,
        coarse(status) is Faulted <==> status == "unhealthy"@ || status == "failed"@,
        coarse(status) is ShuttingDown <==> status == "shutting_down"@,
        coarse(status) is Stopped <==> status == "stopped"@,
{
    lemma_all_words();
}

/// What a probe saw counts as up exactly when the guest runs and reports the state of one
/// that runs, and is not judged: a probe knows of no intent.
pub proof fn law_a_probe_sees_but_does_not_judge(h: GuestHealth, l: GuestLifecycle)
    requires
        probed(h, l),
    ensures
        l.up() <==> h.status@ == "running"@ && h.guest_state == 1,
        l.boot_id == Some(h.boot_id),
        l.hb_seq == Some(h.hb_seq),
        verdict(l.expected, l.status@, l.guest_state) is None,
        l.for_ms is None && l.since_unix_secs is None && l.reason is None,
{
}

/// The number under a key is read as it stands where it fits.
pub open spec fn says_number(j: Json, key: Seq<char>, n: u64) -> bool {
    j.member(key) == Some(Json::Unsigned(n))
}

/// The text under a key.
pub open spec fn says_text(j: Json, key: Seq<char>, t: Seq<char>) -> bool {
    j.member(key) == Some(Json::Text(t))
}

/// A document on the health of a guest is read exactly when it has a status in words,
/// and each field is read from under its own key; what is missing is not made up.
pub proof fn law_a_lifecycle_is_read_key_by_key(
    j: Json,
    r: Result<GuestLifecycle, String>,
    t: Seq<char>,
    n: u64,
)
    requires
        lifecycle_read(j, r),
        n <= u32::MAX,
    ensures
        r is Ok <==> exists|w: Seq<char>| says_text(j, "status"@, w),
        r matches Ok(l) ==> {
            &&& says_text(j, "status"@, t) ==> l.status@ == t
            &&& says_number(j, "guest_state"@, n) ==> l.guest_state == Some(n as u32)
            &&& says_number(j, "hb_seq"@, n) ==> l.hb_seq == Some(n as u32)
            &&& says_number(j, "boot_id"@, n) ==> l.boot_id == Some(n as u32)
            &&& says_number(j, "for_ms"@, n) ==> l.for_ms == Some(n)
            &&& says_number(j, "since_unix_secs"@, n) ==> l.since_unix_secs == Some(n)
            &&& says_text(j, "reason"@, t) ==> (l.reason matches Some(w) && w@ == t)
            &&& says_text(j, "expected_by"@, t) ==> (l.expected_by matches Some(w) && w@ == t)
            &&& says_number(j, "expected_for_ms"@, n) ==> l.expected_for_ms == Some(n)
            &&& says_text(j, "expected"@, "running"@) <==> l.expected == Some(
                ExpectedState::Running,
            )
            &&& says_text(j, "expected"@, "stopped"@) <==> l.expected == Some(
                ExpectedState::Stopped,
            )
            &&& j.member("guest_state"@) is None ==> l.guest_state is None
            &&& j.member("hb_seq"@) is None ==> l.hb_seq is None
            &&& j.member("boot_id"@) is None ==> l.boot_id is None
            &&& j.member("for_ms"@) is None ==> l.for_ms is None
            &&& j.member("since_unix_secs"@) is None ==> l.since_unix_secs is None
            &&& j.member("reason"@) is None ==> l.reason is None
            &&& j.member("expected_by"@) is None ==> l.expected_by is None
            &&& j.member("expected_for_ms"@) is None ==> l.expected_for_ms is None
        },
{
    lemma_all_words();
    assert(n <= 0xffff_ffff ==> n & 0xffff_ffff == n) by (bit_vector);
    match j.member("status"@) {
        Some(Json::Text(w)) => {
            assert(says_text(j, "status"@, w));
        },
        _ => {},
    }
}

proof fn lemma_key_shapes()
    ensures
        "hb_seq"@.len() == 6,
        "boot_id"@.len() == 7,
        "guest_state"@.len() == 11,
        "lifecycle_since"@.len() == 15,
        "lifecycle_status"@.len() == 16 && "lifecycle_status"@[10] == 's',
        "lifecycle_for_ms"@.len() == 16 && "lifecycle_for_ms"@[10] == 'f',
        "lifecycle_reason"@.len() == 16 && "lifecycle_reason"@[10] == 'r',
        "lifecycle_expected"@.len() == 18,
        "lifecycle_convergence"@.len() == 21 && "lifecycle_convergence"@[10] == 'c',
        "lifecycle_expected_by"@.len() == 21 && "lifecycle_expected_by"@[10] == 'e',
        "lifecycle_expected_for_ms"@.len() == 25,
{
    reveal_strlit("hb_seq");
    reveal_strlit("boot_id");
    reveal_strlit("guest_state");
    reveal_strlit("lifecycle_status");
    reveal_strlit("lifecycle_for_ms");
    reveal_strlit("lifecycle_since");
    reveal_strlit("lifecycle_reason");
    reveal_strlit("lifecycle_expected");
    reveal_strlit("lifecycle_expected_by");
    reveal_strlit("lifecycle_expected_for_ms");
    reveal_strlit("lifecycle_convergence");
}

/// What is published of a component stands under its own keys: everything that was seen
/// and what is meant, and nothing under a key for what is not known.
pub proof fn law_everything_seen_is_published(m: Map<Seq<char>, Json>, l: GuestLifecycle)
    ensures
        ({
            let out = with_lifecycle(m, l);
            &&& out.contains_key("lifecycle_status"@) && out["lifecycle_status"@] == Json::Text(
                l.status@,
            )
            &&& l.hb_seq matches Some(n) ==> out.contains_key("hb_seq"@) && out["hb_seq"@]
                == Json::Unsigned(n as u64)
            &&& l.boot_id matches Some(n) ==> out.contains_key("boot_id"@) && out["boot_id"@]
                == Json::Unsigned(n as u64)
            &&& l.guest_state matches Some(n) ==> out.contains_key("guest_state"@)
                && out["guest_state"@] == Json::Unsigned(n as u64)
            &&& l.for_ms matches Some(n) ==> out.contains_key("lifecycle_for_ms"@)
                && out["lifecycle_for_ms"@] == Json::Unsigned(n)
            &&& l.since_unix_secs matches Some(n) ==> out.contains_key("lifecycle_since"@)
                && out["lifecycle_since"@] == Json::Unsigned(n)
            &&& l.reason matches Some(t) ==> out.contains_key("lifecycle_reason"@)
                && out["lifecycle_reason"@] == Json::Text(t@)
            &&& l.expected == Some(ExpectedState::Running) ==> out.contains_key(
                "lifecycle_expected"@,
            ) && out["lifecycle_expected"@] == Json::Text("running"@)
            &&& l.expected == Some(ExpectedState::Stopped) ==> out.contains_key(
                "lifecycle_expected"@,
            ) && out["lifecycle_expected"@] == Json::Text("stopped"@)
            &&& l.expected_by matches Some(t) ==> out.contains_key("lifecycle_expected_by"@)
                && out["lifecycle_expected_by"@] == Json::Text(t@)
            &&& l.expected_for_ms matches Some(n) ==> out.contains_key(
                "lifecycle_expected_for_ms"@,
            ) && out["lifecycle_expected_for_ms"@] == Json::Unsigned(n)
            &&& l.hb_seq is None && !m.contains_key("hb_seq"@) ==> !out.contains_key("hb_seq"@)
            &&& l.boot_id is None && !m.contains_key("boot_id"@) ==> !out.contains_key("boot_id"@)
            &&& l.for_ms is None && !m.contains_key("lifecycle_for_ms"@) ==> !out.contains_key(
                "lifecycle_for_ms"@,
            )
            &&& l.reason is None && !m.contains_key("lifecycle_reason"@) ==> !out.contains_key(
                "lifecycle_reason"@,
            )
        }),
{
    lemma_key_shapes();
}

/// A disabled component says that it is stopped, that this is what is meant, and by whom.
pub proof fn law_a_disabled_component_is_meant_to_be_stopped(m: Map<Seq<char>, Json>)
    ensures
        ({
            let out = with_disabled(m);
            &&& out.contains_key("lifecycle_status"@) && out["lifecycle_status"@] == Json::Text(
                "stopped"@,
            )
            &&& out.contains_key("lifecycle_reason"@) && out["lifecycle_reason"@] == Json::Text(
                "administratively disabled"@,
            )
            &&& out.contains_key("lifecycle_expected"@) && out["lifecycle_expected"@] == Json::Text(
                "stopped"@,
            )
            &&& out.contains_key("lifecycle_expected_by"@) && out["lifecycle_expected_by"@]
                == Json::Text("admin_disable"@)
        }),
{
    lemma_key_shapes();
}

/// A component that has failed says so, is down, and counts as faulted; one that was
/// merely stopped has not failed.
pub proof fn law_a_failed_component_is_down(l: GuestLifecycle)
    ensures
        l.failed() <==> l.status@ == "failed"@,
        l.failed() ==> down_word(l.status@) && !l.up() && coarse(l.status@) is Faulted,
        l.status@ == "stopped"@ ==> !l.failed(),
{
    lemma_all_words();
}

} // verus!
