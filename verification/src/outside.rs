//! What the crate takes from elsewhere: the standard library's conversions and
//! the encoding, hashing and calendar crates. What is said of the functions marked
//! `external_body`, and of those of the standard library, is believed, not proved.

use base64::Engine;
use sha2::Digest;
use vstd::prelude::*;
use vstd::utf8::*;

verus! {

/// `String::push` appends one character to the end of a string.
pub assume_specification[ String::push ](s: &mut String, c: char)
    ensures
        final(s)@ == old(s)@.push(c),
;

/// `std::str::from_utf8` gives back the text that a byte string encodes, and
/// refuses exactly the byte strings that are not UTF-8.
#[verifier::external_body]
pub(crate) fn utf8_text(bytes: &[u8]) -> (r: Option<String>)
    ensures
        match r {
            Some(s) => valid_utf8(bytes@) && s@ == decode_utf8(bytes@),
            None => !valid_utf8(bytes@),
        },
{
    std::str::from_utf8(bytes).ok().map(|s| s.to_owned())
}

/// What `String::from_utf8_lossy` makes of a byte string.
pub uninterp spec fn lossy_text(bytes: Seq<u8>) -> Seq<char>;

/// `String::from_utf8_lossy` reads a byte string as text and puts a replacement
/// character where it is not UTF-8; a byte string that is UTF-8 comes out as the
/// text it encodes.
#[verifier::external_body]
pub(crate) fn lossy(bytes: &[u8]) -> (r: String)
    ensures
        r@ == lossy_text(bytes@),
        valid_utf8(bytes@) ==> r@ == decode_utf8(bytes@),
{
    String::from_utf8_lossy(bytes).into_owned()
}

/// What the `Debug` of a text prints: the text between quotation marks, with
/// escapes.
pub uninterp spec fn quoted_text(s: Seq<char>) -> Seq<char>;

/// `format!` with `{:?}` on a text prints the text between quotation marks, with
/// escapes for what does not print.
#[verifier::external_body]
pub(crate) fn quoted(s: &str) -> (r: String)
    ensures
        r@ == quoted_text(s@),
{
    format!("{s:?}")
}

// ---------------------------------------------------------------------------
// Encodings and digests
// ---------------------------------------------------------------------------

/// One hexadecimal digit in lower case.
pub open spec fn lower_hex_char(d: nat) -> char {
    if d < 10 {
        (48 + d) as char
    } else {
        (87 + d) as char
    }
}

/// A byte string in lower-case hexadecimal, two digits to a byte.
pub open spec fn hex_text(bytes: Seq<u8>) -> Seq<char> {
    Seq::new(
        2 * bytes.len(),
        |i: int|
            if i % 2 == 0 {
                lower_hex_char(bytes[i / 2] as nat / 16)
            } else {
                lower_hex_char(bytes[i / 2] as nat % 16)
            },
    )
}

/// `hex::encode` writes every byte as two lower-case hexadecimal digits, the
/// high half first.
#[verifier::external_body]
pub(crate) fn hex_of(bytes: &[u8]) -> (r: String)
    ensures
        r@ == hex_text(bytes@),
{
    hex::encode(bytes)
}

/// The SHA-256 digest of a byte string.
pub uninterp spec fn sha256(bytes: Seq<u8>) -> Seq<u8>;

/// The running state of `sha2::Sha256`. That name stands for a type with parts
/// that are private to its crate, so it is held in a field here.
#[verifier::external_body]
#[derive(Debug)]
pub struct Hasher {
    inner: sha2::Sha256,
}

/// The bytes that a hasher was fed, in their order.
pub uninterp spec fn fed(h: Hasher) -> Seq<u8>;

/// `sha2::Sha256::new` makes a hasher that was fed nothing.
#[verifier::external_body]
pub(crate) fn new_hasher() -> (h: Hasher)
    ensures
        fed(h) == Seq::<u8>::empty(),
{
    Hasher { inner: sha2::Sha256::new() }
}

/// `update` of `sha2::Sha256` feeds a hasher with more bytes.
#[verifier::external_body]
pub(crate) fn feed(h: &mut Hasher, bytes: &[u8])
    ensures
        fed(*final(h)) == fed(*old(h)) + bytes@,
{
    h.inner.update(bytes);
}

/// `finalize` of `sha2::Sha256` gives the SHA-256 digest of all that a hasher was
/// fed.
#[verifier::external_body]
pub(crate) fn digest_of_fed(h: Hasher) -> (r: [u8; 32])
    ensures
        r@ == sha256(fed(h)),
{
    h.inner.finalize().into()
}

/// The SHA-256 digest of a byte string.
pub fn sha256_of(bytes: &[u8]) -> (r: [u8; 32])
    ensures
        r@ == sha256(bytes@),
{
    let mut h = new_hasher();
    feed(&mut h, bytes);
    assert(fed(h) =~= bytes@);
    digest_of_fed(h)
}

/// A byte string in the URL-safe base64 alphabet without padding.
pub uninterp spec fn b64url_text(bytes: Seq<u8>) -> Seq<char>;

/// The byte string that a text in URL-safe base64 without padding stands for.
pub uninterp spec fn b64url_bytes(s: Seq<char>) -> Option<Seq<u8>>;

/// A character of the URL-safe base64 alphabet.
pub open spec fn is_b64url_char(c: char) -> bool {
    ||| 'A' <= c <= 'Z'
    ||| 'a' <= c <= 'z'
    ||| '0' <= c <= '9'
    ||| c == '-'
    ||| c == '_'
}

/// `encode` of the engine `URL_SAFE_NO_PAD` writes a byte string in the URL-safe
/// alphabet and nothing else, and the same engine's `decode` gives the byte
/// string back.
#[verifier::external_body]
pub(crate) fn b64url(bytes: &[u8]) -> (r: String)
    ensures
        r@ == b64url_text(bytes@),
        b64url_bytes(r@) == Some(bytes@),
        forall|i: int| 0 <= i < r@.len() ==> is_b64url_char(#[trigger] r@[i]),
{
    base64::engine::general_purpose::URL_SAFE_NO_PAD.encode(bytes)
}

/// `decode` of the engine `URL_SAFE_NO_PAD` gives back the byte string that a
/// text stands for, or an error, here `None`. The engine takes nothing but whole
/// groups of its alphabet, so it refuses a text that holds another character.
#[verifier::external_body]
pub(crate) fn b64url_decode(s: &str) -> (r: Option<Vec<u8>>)
    ensures
        match r {
            Some(bytes) => b64url_bytes(s@) == Some(bytes@),
            None => b64url_bytes(s@) is None,
        },
        r is Some ==> forall|i: int| 0 <= i < s@.len() ==> is_b64url_char(#[trigger] s@[i]),
{
    base64::engine::general_purpose::URL_SAFE_NO_PAD.decode(s).ok()
}

/// A byte string in the standard base64 alphabet, padded.
pub uninterp spec fn b64_text(bytes: Seq<u8>) -> Seq<char>;

/// `encode` of the engine `STANDARD` writes a byte string in padded base64.
#[verifier::external_body]
pub(crate) fn b64(bytes: &[u8]) -> (r: String)
    ensures
        r@ == b64_text(bytes@),
{
    base64::engine::general_purpose::STANDARD.encode(bytes)
}

// ---------------------------------------------------------------------------
// Instants
// ---------------------------------------------------------------------------

/// The instants that the calendar crate can hold, as seconds since the start of
/// 1970 and nanoseconds; a nanosecond count of a second or more stands for a
/// leap second and is possible only in the last second of a minute.
pub open spec fn is_instant(secs: i64, nanos: u32) -> bool {
    &&& -8334601228800 <= secs <= 8210266876799
    &&& (nanos < 1_000_000_000 || (nanos < 2_000_000_000 && secs % 60 == 59))
}

/// An instant in RFC 3339, in UTC.
pub uninterp spec fn rfc3339_text(secs: i64, nanos: u32) -> Seq<char>;

/// `DateTime::to_rfc3339` on the `DateTime<Utc>` that `from_timestamp` makes of
/// the seconds and nanoseconds.
#[verifier::external_body]
pub(crate) fn rfc3339(secs: i64, nanos: u32) -> (r: String)
    requires
        is_instant(secs, nanos),
    ensures
        r@ == rfc3339_text(secs, nanos),
{
    chrono::DateTime::from_timestamp(secs, nanos).expect("an instant").to_rfc3339()
}

/// The instant that a text in RFC 3339 names.
pub uninterp spec fn rfc3339_instant(s: Seq<char>) -> Option<(i64, u32)>;

/// `DateTime::parse_from_rfc3339`, with the result in UTC, as seconds since the
/// start of 1970 and nanoseconds; `None` where it reports an error.
#[verifier::external_body]
pub(crate) fn parse_rfc3339(s: &str) -> (r: Option<(i64, u32)>)
    ensures
        r == rfc3339_instant(s@),
        r matches Some(t) ==> is_instant(t.0, t.1),
{
    chrono::DateTime::parse_from_rfc3339(s).ok().map(
        |t| (t.timestamp(), t.timestamp_subsec_nanos()),
    )
}

} // verus!
