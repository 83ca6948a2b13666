//! The conversation with the service that runs virtual machines.

use crate::banks::Bank;
use crate::json::{json_of, json_parsed, member, read_json, text_in, unsigned_in, Json};
use crate::outside::{lossy, lossy_text, utf8_text};
use crate::text::{
    cat2, cat3, cat5, chars_of, contains_text, cut_at, occurs_in, piece_of, split_once_at,
};
use serde_json::{Map as JsonMap, Value};
use vstd::prelude::*;
use vstd::utf8::*;

verus! {

/// The query that names a bank.
pub open spec fn bank_suffix(bank: Option<Bank>) -> Seq<char> {
    match bank {
        Some(Bank::A) => "?bank=a"@,
        Some(Bank::B) => "?bank=b"@,
        None => ""@,
    }
}

/// The query that names a bank; without a bank, nothing.
pub fn bank_query(bank: Option<Bank>) -> (r: &'static str)
    ensures
        r@ == bank_suffix(bank),
{
    match bank {
        Some(Bank::A) => "?bank=a",
        Some(Bank::B) => "?bank=b",
        None => "",
    }
}

/// The word for starting a guest, or for starting it again.
pub open spec fn action_word(restart: bool) -> Seq<char> {
    if restart {
        "restart"@
    } else {
        "start"@
    }
}

/// The request that has a guest started.
pub open spec fn notice_text(vm: Seq<char>, restart: bool, bank: Option<Bank>) -> Seq<char> {
    ("POST /vms/"@ + vm + "/"@ + action_word(restart) + bank_suffix(bank))
        + " HTTP/1.1\r\nHost: localhost\r\nContent-Length: 0\r\nConnection: close\r\n\r\n"@
}

/// The request that has a guest started, or started again, from a bank.
pub fn notice_request(vm_name: &str, restart: bool, bank: Option<Bank>) -> (r: String)
    ensures
        r@ == notice_text(vm_name@, restart, bank),
{
    let word = if restart {
        "restart"
    } else {
        "start"
    };
    let head = cat5("POST /vms/", vm_name, "/", word, bank_query(bank));
    cat2(
        head.as_str(),
        " HTTP/1.1\r\nHost: localhost\r\nContent-Length: 0\r\nConnection: close\r\n\r\n",
    )
}

/// The first line of a text without its end, and `(empty)` for a text that has
/// none.
pub open spec fn status_line(s: Seq<char>) -> Seq<char> {
    if s.len() == 0 {
        "(empty)"@
    } else {
        match crate::text::cut(s, '\n') {
            Some((line, _)) => if line.len() > 0 && line.last() == '\r' {
                line.drop_last()
            } else {
                line
            },
            None => s,
        }
    }
}

fn first_line(s: &str) -> (r: String)
    ensures
        r@ == status_line(s@),
{
    if s.is_empty() {
        return "(empty)".to_owned();
    }
    match crate::text::split_once(s, '\n') {
        Some(p) => {
            let cs = chars_of(p.0.as_str());
            if cs.len() > 0 && cs[cs.len() - 1] == '\r' {
                let line = piece_of(&cs, 0, cs.len() - 1);
                assert(line@ =~= p.0@.drop_last());
                line
            } else {
                p.0
            }
        },
        None => s.to_owned(),
    }
}

/// What is made of the answer of the service.
pub open spec fn notice_answered(reply: Seq<char>, r: Result<(), String>) -> bool {
    match r {
        Ok(_) => occurs_in("200"@, status_line(reply)),
        Err(why) => !occurs_in("200"@, status_line(reply)) && why@ == "vm-service returned: "@
            + status_line(reply),
    }
}

/// Whether the service did what it was asked, from the start of its answer: its
/// first line has to say 200.
pub fn notice_reply(reply: &[u8]) -> (r: Result<(), String>)
    ensures
        notice_answered(lossy_text(reply@), r),
{
    let text = lossy(reply);
    let line = first_line(text.as_str());
    if contains_text(line.as_str(), "200") {
        Ok(())
    } else {
        Err(cat2("vm-service returned: ", line.as_str()))
    }
}

/// How a guest is.
#[derive(Debug, Clone)]
pub struct GuestHealth {
    pub guest_state: u32,
    pub hb_seq: u32,
    /// A number that is another one in every life of the guest.
    pub boot_id: u32,
    pub status: String,
}

/// Something that tells how a component is.
pub trait HealthProbe {
    /// How the component is; nothing where it does not answer.
    fn probe(&self) -> (r: Option<GuestHealth>);

    /// What else there is to say of the component.
    fn runtime_extensions(&self) -> (r: JsonMap<String, Value>)
        default_ensures
            crate::json::members_of(r) == crate::json::no_members(),
    {
        crate::json::new_object()
    }
}

/// The request for the health of a guest.
pub open spec fn health_text(vm: Seq<char>) -> Seq<char> {
    "GET /vms/"@ + vm + "/health HTTP/1.1\r\nHost: localhost\r\nConnection: close\r\n\r\n"@
}

/// The request for the health of a guest.
pub fn health_request(vm_name: &str) -> (r: String)
    ensures
        r@ == health_text(vm_name@),
{
    cat3(
        "GET /vms/",
        vm_name,
        "/health HTTP/1.1\r\nHost: localhost\r\nConnection: close\r\n\r\n",
    )
}

/// What stands between the first and the second empty line of a response.
pub open spec fn second_block(text: Seq<char>) -> Option<Seq<char>> {
    match cut_at(text, "\r\n\r\n"@) {
        Some((_, rest)) => match cut_at(rest, "\r\n\r\n"@) {
            Some((body, _)) => Some(body),
            None => Some(rest),
        },
        None => None,
    }
}

/// The low thirty-two bits of a number.
pub open spec fn low32(n: u64) -> u32 {
    (n % 0x1_0000_0000) as u32
}

/// A member of an object as a number of thirty-two bits.
pub open spec fn member32(j: Json, key: Seq<char>) -> Option<u32> {
    match j.member(key) {
        Some(Json::Unsigned(n)) => Some(low32(n)),
        _ => None,
    }
}

/// What a response says of the health of a guest, if it says anything.
pub open spec fn health_says(response: Seq<u8>, h: Option<GuestHealth>) -> bool {
    if !valid_utf8(response) {
        h is None
    } else {
        match second_block(decode_utf8(response)) {
            None => h is None,
            Some(body) => match json_parsed(encode_utf8(body)) {
                None => h is None,
                Some(j) => match (
                    member32(j, "guest_state"@),
                    member32(j, "hb_seq"@),
                    member32(j, "boot_id"@),
                ) {
                    (Some(s), Some(q), Some(b)) => match h {
                        Some(g) => g.guest_state == s && g.hb_seq == q && g.boot_id == b
                            && g.status@ == (match j.member("status"@) {
                            Some(Json::Text(t)) => t,
                            _ => ""@,
                        }),
                        None => false,
                    },
                    _ => h is None,
                },
            },
        }
    }
}

pub(crate) fn truncate32(n: u64) -> (r: u32)
    ensures
        r == low32(n),
{
    let r: u32 = (n % 0x1_0000_0000) as u32;
    r
}

fn number32(v: &Value, key: &str) -> (r: Option<u32>)
    ensures
        r == member32(json_of(*v), key@),
{
    match member(v, key) {
        Some(m) => match unsigned_in(m) {
            Some(n) => Some(truncate32(n)),
            None => None,
        },
        None => None,
    }
}

/// What a response says of the health of a guest. A response without a body that
/// gives the three numbers says nothing; one without a status has an empty one.
pub fn parse_health(response: &[u8]) -> (r: Option<GuestHealth>)
    ensures
        health_says(response@, r),
{
    let text = match utf8_text(response) {
        Some(t) => t,
        None => {
            return None;
        },
    };
    let rest = match split_once_at(text.as_str(), "\r\n\r\n") {
        Some(p) => p.1,
        None => {
            return None;
        },
    };
    let body = match split_once_at(rest.as_str(), "\r\n\r\n") {
        Some(p) => p.0,
        None => rest,
    };
    assert(second_block(decode_utf8(response@)) == Some(body@));
    let v = match read_json(body.as_str().as_bytes()) {
        Some(v) => v,
        None => {
            return None;
        },
    };
    let guest_state: u32 = match number32(&v, "guest_state") {
        Some(n) => n,
        None => {
            return None;
        },
    };
    let hb_seq: u32 = match number32(&v, "hb_seq") {
        Some(n) => n,
        None => {
            return None;
        },
    };
    let boot_id: u32 = match number32(&v, "boot_id") {
        Some(n) => n,
        None => {
            return None;
        },
    };
    let status = match member(&v, "status") {
        Some(m) => match text_in(m) {
            Some(s) => s,
            None => "".to_owned(),
        },
        None => "".to_owned(),
    };
    Some(GuestHealth { guest_state, hb_seq, boot_id, status })
}

/// The word for the state of a guest.
pub open spec fn state_word(state: u32) -> Seq<char> {
    if state == 0 {
        "booting"@
    } else if state == 1 {
        "running"@
    } else if state == 2 {
        "degraded"@
    } else if state == 3 {
        "shutting_down"@
    } else {
        "unknown"@
    }
}

/// The word for the state of a guest.
pub fn guest_state_str(state: u32) -> (r: &'static str)
    ensures
        r@ == state_word(state),
{
    match state {
        0 => "booting",
        1 => "running",
        2 => "degraded",
        3 => "shutting_down",
        _ => "unknown",
    }
}

/// The word for the state of a guest says that it runs exactly for state 1, and each
/// state that has a word of its own has another one.
pub proof fn law_only_state_one_runs(state: u32)
    ensures
        state_word(state) == "running"@ <==> state == 1,
        state_word(state) == "booting"@ <==> state == 0,
        state_word(state) == "degraded"@ <==> state == 2,
        state_word(state) == "shutting_down"@ <==> state == 3,
        state_word(state) == "unknown"@ <==> state > 3,
{
    reveal_strlit("booting");
    reveal_strlit("running");
    reveal_strlit("degraded");
    reveal_strlit("shutting_down");
    reveal_strlit("unknown");
    assert("booting"@.len() == 7 && "running"@.len() == 7 && "unknown"@.len() == 7);
    assert("degraded"@.len() == 8 && "shutting_down"@.len() == 13);
    assert("booting"@[0] == 'b' && "running"@[0] == 'r' && "unknown"@[0] == 'u');
}

/// A guest is restarted exactly where that is asked for, and on the bank that is named;
/// without one the request names none.
pub proof fn law_a_notice_says_what_is_asked(vm: Seq<char>, restart: bool, bank: Option<Bank>)
    ensures
        restart ==> ("POST /vms/"@ + vm + "/restart"@).is_prefix_of(
            notice_text(vm, restart, bank),
        ),
        !restart ==> ("POST /vms/"@ + vm + "/start"@).is_prefix_of(notice_text(vm, restart, bank)),
        bank_suffix(bank).len() == 0 <==> bank is None,
        bank_suffix(bank) == "?bank=a"@ <==> bank == Some(Bank::A),
        bank_suffix(bank) == "?bank=b"@ <==> bank == Some(Bank::B),
{
    reveal_strlit("restart");
    reveal_strlit("start");
    reveal_strlit("/restart");
    reveal_strlit("/start");
    reveal_strlit("/");
    reveal_strlit("?bank=a");
    reveal_strlit("?bank=b");
    reveal_strlit("");
    assert("?bank=a"@[6] == 'a' && "?bank=b"@[6] == 'b');
    assert("/restart"@ =~= "/"@ + "restart"@);
    assert("/start"@ =~= "/"@ + "start"@);
    let head = "POST /vms/"@ + vm + "/"@ + action_word(restart);
    let whole = notice_text(vm, restart, bank);
    assert(whole.take(head.len() as int) =~= head);
    assert("POST /vms/"@ + vm + "/restart"@ =~= "POST /vms/"@ + vm + "/"@ + "restart"@);
    assert("POST /vms/"@ + vm + "/start"@ =~= "POST /vms/"@ + vm + "/"@ + "start"@);
}

/// A health comes out of a response exactly where its body gives the three numbers, and
/// says what they are: the state, the heartbeat and the life of the guest, each its own.
pub proof fn law_health_is_what_the_body_says(
    response: Seq<u8>,
    body: Seq<char>,
    j: Json,
    h: Option<GuestHealth>,
)
    requires
        health_says(response, h),
        valid_utf8(response),
        second_block(decode_utf8(response)) == Some(body),
        json_parsed(encode_utf8(body)) == Some(j),
    ensures
        h is Some <==> {
            &&& j.member("guest_state"@) matches Some(a)
            &&& a is Unsigned
            &&& j.member("hb_seq"@) matches Some(b)
            &&& b is Unsigned
            &&& j.member("boot_id"@) matches Some(c)
            &&& c is Unsigned
        },
        h matches Some(g) ==> {
            &&& j.member("guest_state"@)->0->Unsigned_0 <= u32::MAX ==> g.guest_state
                == j.member("guest_state"@)->0->Unsigned_0
            &&& j.member("hb_seq"@)->0->Unsigned_0 <= u32::MAX ==> g.hb_seq
                == j.member("hb_seq"@)->0->Unsigned_0
            &&& j.member("boot_id"@)->0->Unsigned_0 <= u32::MAX ==> g.boot_id
                == j.member("boot_id"@)->0->Unsigned_0
            &&& j.member("status"@) matches Some(Json::Text(t)) ==> g.status@ == t
            &&& j.member("status"@) is None ==> g.status@ =~= Seq::empty()
        },
{
    reveal_strlit("");
}

/// A response that is no text, or has no body, or whose body is no document, says nothing
/// of the health.
pub proof fn law_garbage_is_no_health(response: Seq<u8>, h: Option<GuestHealth>)
    requires
        health_says(response, h),
        !valid_utf8(response) || second_block(decode_utf8(response)) is None || json_parsed(
            encode_utf8(second_block(decode_utf8(response))->0),
        ) is None,
    ensures
        h is None,
{
}

/// Only the first line of an answer counts, without its line end: the service did what
/// it was asked exactly when that line says 200, and else the line is told.
pub proof fn law_the_first_line_decides(
    line: Seq<char>,
    rest: Seq<char>,
    r: Result<(), String>,
    crlf: Result<(), String>,
    alone: Result<(), String>,
)
    requires
        line.len() > 0,
        !line.contains('\n'),
        line.last() != '\r',
        notice_answered(line + seq!['\n'] + rest, r),
        notice_answered(line + seq!['\r'] + seq!['\n'] + rest, crlf),
        notice_answered(line, alone),
    ensures
        r is Ok <==> occurs_in("200"@, line),
        crlf is Ok <==> occurs_in("200"@, line),
        alone is Ok <==> occurs_in("200"@, line),
        r matches Err(why) ==> why@ == "vm-service returned: "@ + line,
        crlf matches Err(why) ==> why@ == "vm-service returned: "@ + line,
{
    let a = line + seq!['\n'] + rest;
    assert(crate::text::first_char_at(a, '\n', line.len() as int)) by {
        assert(a[line.len() as int] == '\n');
        assert(a.take(line.len() as int) =~= line);
    }
    crate::text::lemma_cut(a, '\n', line.len() as int);
    assert(a.take(line.len() as int) =~= line);
    let front = line + seq!['\r'];
    let b = front + seq!['\n'] + rest;
    assert(!front.contains('\n')) by {
        if front.contains('\n') {
            let i = choose|i: int| 0 <= i < front.len() && front[i] == '\n';
            assert(i < line.len());
            assert(line[i] == '\n');
        }
    }
    assert(crate::text::first_char_at(b, '\n', front.len() as int)) by {
        assert(b[front.len() as int] == '\n');
        assert(b.take(front.len() as int) =~= front);
    }
    crate::text::lemma_cut(b, '\n', front.len() as int);
    assert(b.take(front.len() as int) =~= front);
    assert(front.drop_last() =~= line);
    crate::text::law_a_text_is_cut_at_the_first_place(line, '\n');
}

/// The health that is asked for is that of the named guest.
pub proof fn law_health_is_asked_of_the_named_guest(vm: Seq<char>)
    ensures
        ("GET /vms/"@ + vm + "/health "@).is_prefix_of(health_text(vm)),
{
    reveal_strlit("/health ");
    reveal_strlit("/health HTTP/1.1\r\nHost: localhost\r\nConnection: close\r\n\r\n");
    let tail = "/health HTTP/1.1\r\nHost: localhost\r\nConnection: close\r\n\r\n"@;
    assert(tail.take(8) =~= "/health "@);
    let front = "GET /vms/"@ + vm + "/health "@;
    assert(health_text(vm).take(front.len() as int) =~= front);
}

} // verus!
