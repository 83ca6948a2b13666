//! Reading and listing a component's values.

use crate::backend::dids::{
    did_registry, entries_spec, entry_option, law_registry_ids_resolve, lemma_ids_begin_otherwise,
    no_dids, registry, resolve_param, resolved, DID_ECU_SW_NUMBER, DID_FW_VERSION, DID_ODX_FILE_ID,
    DID_PROGRAMMING_DATE, DID_SPARE_PART_NUMBER, DID_SUPPLIER_SW_NUMBER, DID_SUPPLIER_SW_VERSION,
    DID_SYSTEM_NAME, DID_TESTER_SERIAL, DataKind, DidCache, DidEntry, DidNumbers, EntrySpec,
};
use crate::backend::guest::{guest_state_str, state_word, GuestHealth};
use crate::backend::setup::ComponentBackend;
use crate::banks::{Bank, ResetKind};
use crate::error::{refused, BackendError, BackendFault};
use crate::firmware::{or_empty, FirmwareIdentity, InstalledFile, InstalledFirmware};
use crate::json::{
    bool_value, json_of, list_value, new_object, no_members, object_value, put, text_value,
    unsigned_value, Json,
};
use crate::logs::entry::text_option;
use crate::outside::{b64, b64_text, hex_of, hex_text, lossy, lossy_text, utf8_text};
use crate::text::{cat2, cat5, chars_of, same_text, upper_hex, upper_hex_text};
use serde_json::Value;
use vstd::prelude::*;
use vstd::utf8::*;

verus! {

/// The parameter that holds the signed manifest of the installed firmware.
pub const INSTALLED_MANIFEST_PARAM_ID: &'static str = "x-sumo-installed-manifest";

/// The parameter that says how the component is updated.
pub const UPDATE_MODE_PARAM_ID: &'static str = "x-sumo-update-mode";

// ---------------------------------------------------------------------------
// Bytes as values
// ---------------------------------------------------------------------------

/// The bytes before the first one that is zero.
pub open spec fn up_to_nul(bytes: Seq<u8>) -> Seq<u8>
    decreases bytes.len(),
{
    if bytes.len() == 0 || bytes[0] == 0 {
        Seq::empty()
    } else {
        seq![bytes[0]] + up_to_nul(bytes.drop_first())
    }
}

fn nul_at(bytes: &[u8]) -> (r: usize)
    ensures
        r <= bytes@.len(),
        bytes@.take(r as int) == up_to_nul(bytes@),
{
    let mut i: usize = 0;
    assert(bytes@.take(0) + up_to_nul(bytes@.skip(0)) =~= up_to_nul(bytes@)) by {
        assert(bytes@.skip(0) =~= bytes@);
    }
    while i < bytes.len() && bytes[i] != 0
        invariant
            i <= bytes@.len(),
            bytes@.take(i as int) + up_to_nul(bytes@.skip(i as int)) == up_to_nul(bytes@),
        decreases bytes@.len() - i,
    {
        proof {
            let rest = bytes@.skip(i as int);
            assert(rest.drop_first() =~= bytes@.skip(i as int + 1));
            assert(bytes@.take(i as int + 1) =~= bytes@.take(i as int).push(bytes@[i as int]));
            assert(bytes@.take(i as int + 1) + up_to_nul(bytes@.skip(i as int + 1))
                =~= bytes@.take(i as int) + up_to_nul(rest));
        }
        i += 1;
    }
    assert(up_to_nul(bytes@.skip(i as int)) =~= Seq::empty());
    assert(bytes@.take(i as int) + Seq::<u8>::empty() =~= bytes@.take(i as int));
    i
}

/// The text that fixed-width bytes hold: up to the first zero, with what is not
/// UTF-8 replaced.
pub fn nv_bytes_to_string(data: &[u8]) -> (r: String)
    ensures
        r@ == lossy_text(up_to_nul(data@)),
{
    let end: usize = nul_at(data);
    let front = vstd::slice::slice_subrange(data, 0, end);
    assert(front@ =~= data@.take(end as int));
    lossy(front)
}

/// A character that a typewriter has.
pub open spec fn printable(c: char) -> bool {
    ' ' <= c <= '~'
}

/// A text of printable characters, and at least one.
pub open spec fn all_printable(s: Seq<char>) -> bool {
    s.len() > 0 && forall|i: int| 0 <= i < s.len() ==> printable(#[trigger] s[i])
}

fn is_printable(s: &str) -> (r: bool)
    ensures
        r == all_printable(s@),
{
    let cs = chars_of(s);
    if cs.len() == 0 {
        return false;
    }
    let mut i: usize = 0;
    while i < cs.len()
        invariant
            i <= cs@.len(),
            cs@ == s@,
            forall|j: int| 0 <= j < i ==> printable(#[trigger] s@[j]),
        decreases cs@.len() - i,
    {
        if !(' ' <= cs[i] && cs[i] <= '~') {
            assert(!printable(s@[i as int]));
            return false;
        }
        i += 1;
    }
    true
}

/// The byte at a place, and zero where there is none.
pub open spec fn byte_at(bytes: Seq<u8>, i: int) -> u8 {
    if 0 <= i < bytes.len() {
        bytes[i]
    } else {
        0
    }
}

/// The number in the first four bytes, the lowest first; zero where there are
/// fewer.
pub open spec fn le32(bytes: Seq<u8>) -> u64 {
    if bytes.len() >= 4 {
        (bytes[0] + bytes[1] * 0x100 + bytes[2] * 0x1_0000 + bytes[3] * 0x100_0000) as u64
    } else {
        0
    }
}

/// What the bytes of a value say.
pub open spec fn value_json(kind: DataKind, bytes: Seq<u8>) -> Json {
    match kind {
        DataKind::Bool => Json::Bool(byte_at(bytes, 0) != 0),
        DataKind::Uint8 => Json::Unsigned(byte_at(bytes, 0) as u64),
        DataKind::Uint32 => Json::Unsigned(le32(bytes)),
        DataKind::Text => Json::Text(lossy_text(up_to_nul(bytes))),
        DataKind::Bytes => {
            let front = up_to_nul(bytes);
            if valid_utf8(front) && all_printable(decode_utf8(front)) {
                Json::Text(decode_utf8(front))
            } else {
                Json::Text("0x"@ + hex_text(bytes))
            }
        },
    }
}

/// The kind of a value; one without an entry is a row of bytes.
pub open spec fn kind_of(reg: Option<EntrySpec>) -> DataKind {
    match reg {
        Some(e) => e.kind,
        None => DataKind::Bytes,
    }
}

/// What the bytes of a value say.
pub fn did_value_to_json(value: &[u8], reg: &Option<DidEntry>) -> (r: Value)
    ensures
        json_of(r) == value_json(kind_of(entry_option(*reg)), value@),
{
    let kind = match reg {
        Some(e) => e.kind,
        None => DataKind::Bytes,
    };
    let first: u8 = if value.len() > 0 {
        value[0]
    } else {
        0
    };
    match kind {
        DataKind::Bool => bool_value(first != 0),
        DataKind::Uint8 => unsigned_value(first as u64),
        DataKind::Uint32 => {
            let v: u64 = if value.len() >= 4 {
                value[0] as u64 + value[1] as u64 * 0x100 + value[2] as u64 * 0x1_0000
                    + value[3] as u64 * 0x100_0000
            } else {
                0
            };
            unsigned_value(v)
        },
        DataKind::Text => {
            let s = nv_bytes_to_string(value);
            text_value(s.as_str())
        },
        DataKind::Bytes => {
            let end: usize = nul_at(value);
            let front = vstd::slice::slice_subrange(value, 0, end);
            assert(front@ =~= up_to_nul(value@));
            if let Some(s) = utf8_text(front) {
                if is_printable(s.as_str()) {
                    return text_value(s.as_str());
                }
            }
            let hex = hex_of(value);
            let text = cat2("0x", hex.as_str());
            text_value(text.as_str())
        },
    }
}

// ---------------------------------------------------------------------------
// The identity of the firmware as values
// ---------------------------------------------------------------------------

/// A value that comes out of the manifest of the installed firmware.
pub open spec fn identity_did(did: u16) -> bool {
    ||| did == DID_SPARE_PART_NUMBER
    ||| did == DID_ECU_SW_NUMBER
    ||| did == DID_FW_VERSION
    ||| did == DID_SUPPLIER_SW_NUMBER
    ||| did == DID_SUPPLIER_SW_VERSION
    ||| did == DID_SYSTEM_NAME
    ||| did == DID_TESTER_SERIAL
    ||| did == DID_PROGRAMMING_DATE
    ||| did == DID_ODX_FILE_ID
}

/// Whether a value comes out of the manifest of the installed firmware.
pub fn is_identity_did(did: u16) -> (r: bool)
    ensures
        r == identity_did(did),
{
    did == DID_SPARE_PART_NUMBER || did == DID_ECU_SW_NUMBER || did == DID_FW_VERSION || did
        == DID_SUPPLIER_SW_NUMBER || did == DID_SUPPLIER_SW_VERSION || did == DID_SYSTEM_NAME || did
        == DID_TESTER_SERIAL || did == DID_PROGRAMMING_DATE || did == DID_ODX_FILE_ID
}

/// A byte string cut or filled up with zeros to a width.
pub open spec fn fixed_width(bytes: Seq<u8>, width: nat) -> Seq<u8> {
    Seq::new(
        width,
        |i: int|
            if i < bytes.len() {
                bytes[i]
            } else {
                0u8
            },
    )
}

/// The field of an identity that a value holds.
pub open spec fn identity_field(id: FirmwareIdentity, did: u16) -> Option<Seq<char>> {
    if did == DID_FW_VERSION {
        text_option(id.version)
    } else if did == DID_ECU_SW_NUMBER {
        text_option(id.ecu_sw_number)
    } else if did == DID_SUPPLIER_SW_NUMBER {
        text_option(id.supplier_sw_number)
    } else if did == DID_SUPPLIER_SW_VERSION {
        text_option(id.supplier_sw_version)
    } else if did == DID_SPARE_PART_NUMBER {
        text_option(id.spare_part_number)
    } else if did == DID_ODX_FILE_ID {
        text_option(id.odx_file_id)
    } else if did == DID_SYSTEM_NAME {
        text_option(id.system_name)
    } else if did == DID_PROGRAMMING_DATE {
        text_option(id.programming_date)
    } else if did == DID_TESTER_SERIAL {
        text_option(id.tester_serial)
    } else {
        None
    }
}

/// The width of a value: thirty-two bytes, and eight for a date.
pub open spec fn identity_width(did: u16) -> nat {
    if did == DID_PROGRAMMING_DATE {
        8
    } else {
        32
    }
}

/// The value that an identity gives: nothing for a field that is absent or empty.
pub open spec fn identity_value(id: FirmwareIdentity, did: u16) -> Option<Seq<u8>> {
    match identity_field(id, did) {
        Some(s) => if s.len() > 0 {
            Some(fixed_width(encode_utf8(s), identity_width(did)))
        } else {
            None
        },
        None => None,
    }
}

fn fixed(s: &str, width: usize) -> (r: Vec<u8>)
    ensures
        r@ == fixed_width(encode_utf8(s@), width as nat),
{
    let bytes = s.as_bytes();
    let mut r: Vec<u8> = Vec::new();
    let mut i: usize = 0;
    while i < width
        invariant
            i <= width,
            bytes@ == encode_utf8(s@),
            r@.len() == i,
            forall|j: int|
                0 <= j < i ==> #[trigger] r@[j] == fixed_width(encode_utf8(s@), width as nat)[j],
        decreases width - i,
    {
        if i < bytes.len() {
            r.push(bytes[i]);
        } else {
            r.push(0);
        }
        i += 1;
    }
    assert(r@ =~= fixed_width(encode_utf8(s@), width as nat));
    r
}

/// The values with one of an identity laid over them.
pub open spec fn laid(values: Map<u16, Seq<u8>>, id: FirmwareIdentity, did: u16) -> Map<
    u16,
    Seq<u8>,
> {
    match identity_value(id, did) {
        Some(v) => values.insert(did, v),
        None => values,
    }
}

/// The values with those of an identity laid over them.
pub open spec fn overlaid(values: Map<u16, Seq<u8>>, id: FirmwareIdentity) -> Map<u16, Seq<u8>> {
    let v = laid(values, id, DID_FW_VERSION);
    let v = laid(v, id, DID_ECU_SW_NUMBER);
    let v = laid(v, id, DID_SUPPLIER_SW_NUMBER);
    let v = laid(v, id, DID_SUPPLIER_SW_VERSION);
    let v = laid(v, id, DID_SPARE_PART_NUMBER);
    let v = laid(v, id, DID_ODX_FILE_ID);
    let v = laid(v, id, DID_SYSTEM_NAME);
    let v = laid(v, id, DID_PROGRAMMING_DATE);
    laid(v, id, DID_TESTER_SERIAL)
}

/// Values by their number, with one of an identity at the end, where it has it.
pub open spec fn with_pair(pairs: Seq<(u16, Seq<u8>)>, id: FirmwareIdentity, did: u16) -> Seq<
    (u16, Seq<u8>),
> {
    match identity_value(id, did) {
        Some(v) => pairs.push((did, v)),
        None => pairs,
    }
}

/// The values of an identity, by their number: a field that is absent or empty has
/// none.
pub open spec fn identity_pairs(id: FirmwareIdentity) -> Seq<(u16, Seq<u8>)> {
    let s = Seq::<(u16, Seq<u8>)>::empty();
    let s = with_pair(s, id, DID_FW_VERSION);
    let s = with_pair(s, id, DID_ECU_SW_NUMBER);
    let s = with_pair(s, id, DID_SUPPLIER_SW_NUMBER);
    let s = with_pair(s, id, DID_SUPPLIER_SW_VERSION);
    let s = with_pair(s, id, DID_SPARE_PART_NUMBER);
    let s = with_pair(s, id, DID_ODX_FILE_ID);
    let s = with_pair(s, id, DID_SYSTEM_NAME);
    let s = with_pair(s, id, DID_PROGRAMMING_DATE);
    with_pair(s, id, DID_TESTER_SERIAL)
}

/// What a list of values by their number says.
pub open spec fn pairs_view(pairs: Seq<(u16, Vec<u8>)>) -> Seq<(u16, Seq<u8>)> {
    pairs.map_values(|p: (u16, Vec<u8>)| (p.0, p.1@))
}

/// The values with those of a list laid over them.
pub open spec fn laid_all(values: Map<u16, Seq<u8>>, pairs: Seq<(u16, Seq<u8>)>) -> Map<
    u16,
    Seq<u8>,
>
    decreases pairs.len(),
{
    if pairs.len() == 0 {
        values
    } else {
        laid_all(values, pairs.drop_last()).insert(pairs.last().0, pairs.last().1)
    }
}

proof fn lemma_laid_one_more(
    values: Map<u16, Seq<u8>>,
    pairs: Seq<(u16, Seq<u8>)>,
    id: FirmwareIdentity,
    did: u16,
)
    ensures
        laid_all(values, with_pair(pairs, id, did)) == laid(laid_all(values, pairs), id, did),
{
    if let Some(v) = identity_value(id, did) {
        assert(pairs.push((did, v)).drop_last() =~= pairs);
    }
}

proof fn lemma_laid_identity(values: Map<u16, Seq<u8>>, id: FirmwareIdentity)
    ensures
        laid_all(values, identity_pairs(id)) == overlaid(values, id),
{
    let s = Seq::<(u16, Seq<u8>)>::empty();
    lemma_laid_one_more(values, s, id, DID_FW_VERSION);
    let s = with_pair(s, id, DID_FW_VERSION);
    lemma_laid_one_more(values, s, id, DID_ECU_SW_NUMBER);
    let s = with_pair(s, id, DID_ECU_SW_NUMBER);
    lemma_laid_one_more(values, s, id, DID_SUPPLIER_SW_NUMBER);
    let s = with_pair(s, id, DID_SUPPLIER_SW_NUMBER);
    lemma_laid_one_more(values, s, id, DID_SUPPLIER_SW_VERSION);
    let s = with_pair(s, id, DID_SUPPLIER_SW_VERSION);
    lemma_laid_one_more(values, s, id, DID_SPARE_PART_NUMBER);
    let s = with_pair(s, id, DID_SPARE_PART_NUMBER);
    lemma_laid_one_more(values, s, id, DID_ODX_FILE_ID);
    let s = with_pair(s, id, DID_ODX_FILE_ID);
    lemma_laid_one_more(values, s, id, DID_SYSTEM_NAME);
    let s = with_pair(s, id, DID_SYSTEM_NAME);
    lemma_laid_one_more(values, s, id, DID_PROGRAMMING_DATE);
    let s = with_pair(s, id, DID_PROGRAMMING_DATE);
    lemma_laid_one_more(values, s, id, DID_TESTER_SERIAL);
}

fn add_pair(pairs: &mut Vec<(u16, Vec<u8>)>, id: &FirmwareIdentity, did: u16, field: &Option<String>)
    requires
        identity_field(*id, did) == text_option(*field),
    ensures
        pairs_view(final(pairs)@) == with_pair(pairs_view(old(pairs)@), *id, did),
{
    let width: usize = if did == DID_PROGRAMMING_DATE {
        8
    } else {
        32
    };
    if let Some(s) = field {
        if !s.as_str().is_empty() {
            let bytes = fixed(s.as_str(), width);
            let ghost seen = (did, bytes@);
            pairs.push((did, bytes));
            assert(pairs_view(pairs@) =~= pairs_view(old(pairs)@).push(seen));
        }
    }
}

/// The values of an identity, by their number, each in its fixed width. A field that is
/// absent or empty has none.
pub fn identity_to_did_bytes(id: &FirmwareIdentity) -> (r: Vec<(u16, Vec<u8>)>)
    ensures
        pairs_view(r@) == identity_pairs(*id),
{
    let mut r: Vec<(u16, Vec<u8>)> = Vec::new();
    assert(pairs_view(r@) =~= Seq::empty());
    add_pair(&mut r, id, DID_FW_VERSION, &id.version);
    add_pair(&mut r, id, DID_ECU_SW_NUMBER, &id.ecu_sw_number);
    add_pair(&mut r, id, DID_SUPPLIER_SW_NUMBER, &id.supplier_sw_number);
    add_pair(&mut r, id, DID_SUPPLIER_SW_VERSION, &id.supplier_sw_version);
    add_pair(&mut r, id, DID_SPARE_PART_NUMBER, &id.spare_part_number);
    add_pair(&mut r, id, DID_ODX_FILE_ID, &id.odx_file_id);
    add_pair(&mut r, id, DID_SYSTEM_NAME, &id.system_name);
    add_pair(&mut r, id, DID_PROGRAMMING_DATE, &id.programming_date);
    add_pair(&mut r, id, DID_TESTER_SERIAL, &id.tester_serial);
    r
}

/// Lays the values of an identity over those that are there.
fn lay_identity(cache: &mut DidCache, id: &FirmwareIdentity)
    ensures
        final(cache)@ == overlaid(old(cache)@, *id),
{
    let pairs = identity_to_did_bytes(id);
    let ghost start = cache@;
    let ghost all = pairs_view(pairs@);
    let mut i: usize = 0;
    assert(all.take(0) =~= Seq::empty());
    while i < pairs.len()
        invariant
            i <= pairs@.len(),
            all == pairs_view(pairs@),
            cache@ == laid_all(start, all.take(i as int)),
        decreases pairs@.len() - i,
    {
        proof {
            let upto = all.take(i as int + 1);
            assert(upto.drop_last() =~= all.take(i as int));
            assert(upto.last() == (pairs@[i as int].0, pairs@[i as int].1@));
        }
        cache.insert(pairs[i].0, crate::firmware::copy_bytes(&pairs[i].1));
        i += 1;
    }
    proof {
        assert(all.take(i as int) =~= all);
        lemma_laid_identity(start, *id);
    }
}

/// The identity of the firmware decides the values that come out of the manifest,
/// and no other: a field that is absent or empty leaves what was there.
pub proof fn law_overlay_touches_identity_only(
    values: Map<u16, Seq<u8>>,
    id: FirmwareIdentity,
    did: u16,
)
    ensures
        match identity_value(id, did) {
            Some(v) => identity_did(did) && overlaid(values, id).contains_key(did) && overlaid(
                values,
                id,
            )[did] == v,
            None => overlaid(values, id).contains_key(did) == values.contains_key(did) && (
            values.contains_key(did) ==> overlaid(values, id)[did] == values[did]),
        },
{
    let v = laid(values, id, DID_FW_VERSION);
    let v = laid(v, id, DID_ECU_SW_NUMBER);
    let v = laid(v, id, DID_SUPPLIER_SW_NUMBER);
    let v = laid(v, id, DID_SUPPLIER_SW_VERSION);
    let v = laid(v, id, DID_SPARE_PART_NUMBER);
    let v = laid(v, id, DID_ODX_FILE_ID);
    let v = laid(v, id, DID_SYSTEM_NAME);
    let v = laid(v, id, DID_PROGRAMMING_DATE);
    assert(overlaid(values, id) == laid(v, id, DID_TESTER_SERIAL));
}

// ---------------------------------------------------------------------------
// Documents
// ---------------------------------------------------------------------------

/// The document on the identity of an installed firmware: an absent field is an
/// empty text.
pub open spec fn identity_json(id: FirmwareIdentity) -> Json {
    Json::Object(
        no_members().insert("name"@, Json::Text(or_empty(text_option(id.name)))).insert(
            "version"@,
            Json::Text(or_empty(text_option(id.version))),
        ).insert("ecu_sw_number"@, Json::Text(or_empty(text_option(id.ecu_sw_number)))).insert(
            "supplier_sw_number"@,
            Json::Text(or_empty(text_option(id.supplier_sw_number))),
        ).insert(
            "supplier_sw_version"@,
            Json::Text(or_empty(text_option(id.supplier_sw_version))),
        ).insert(
            "spare_part_number"@,
            Json::Text(or_empty(text_option(id.spare_part_number))),
        ).insert("odx_file_id"@, Json::Text(or_empty(text_option(id.odx_file_id)))).insert(
            "system_name"@,
            Json::Text(or_empty(text_option(id.system_name))),
        ).insert(
            "programming_date"@,
            Json::Text(or_empty(text_option(id.programming_date))),
        ).insert("tester_serial"@, Json::Text(or_empty(text_option(id.tester_serial)))),
    )
}

/// The document on one installed file.
pub open spec fn file_json(f: InstalledFile) -> Json {
    Json::Object(
        no_members().insert("path"@, Json::Text(f.name@)).insert(
            "sha256"@,
            Json::Text(hex_text(f.sha256@)),
        ),
    )
}

/// Bytes that may be absent, in base64.
pub open spec fn b64_or_empty(bytes: Option<Vec<u8>>) -> Seq<char> {
    match bytes {
        Some(b) => b64_text(b@),
        None => b64_text(Seq::empty()),
    }
}

/// The document on an installed firmware.
pub open spec fn installed_json(fw: InstalledFirmware) -> Json {
    Json::Object(
        no_members().insert("ivd_version"@, Json::Unsigned(fw.ivd_version)).insert(
            "gen"@,
            Json::Unsigned(fw.gen),
        ).insert("signed_at_unix"@, Json::Unsigned(fw.signed_at_unix)).insert(
            "identity"@,
            identity_json(fw.identity),
        ).insert("files"@, Json::List(fw.files@.map_values(|f: InstalledFile| file_json(f)))).insert(
            "signature_b64"@,
            Json::Text(b64_or_empty(fw.signature)),
        ).insert("manifest_b64"@, Json::Text(b64_or_empty(fw.raw))),
    )
}

fn field_value(field: &Option<String>) -> (r: Value)
    ensures
        json_of(r) == Json::Text(or_empty(text_option(*field))),
{
    match field {
        Some(s) => text_value(s.as_str()),
        None => {
            let empty = String::new();
            assert(empty@ =~= Seq::empty());
            text_value(empty.as_str())
        },
    }
}

fn identity_value_json(id: &FirmwareIdentity) -> (r: Value)
    ensures
        json_of(r) == identity_json(*id),
{
    let mut m = new_object();
    put(&mut m, "name", field_value(&id.name));
    put(&mut m, "version", field_value(&id.version));
    put(&mut m, "ecu_sw_number", field_value(&id.ecu_sw_number));
    put(&mut m, "supplier_sw_number", field_value(&id.supplier_sw_number));
    put(&mut m, "supplier_sw_version", field_value(&id.supplier_sw_version));
    put(&mut m, "spare_part_number", field_value(&id.spare_part_number));
    put(&mut m, "odx_file_id", field_value(&id.odx_file_id));
    put(&mut m, "system_name", field_value(&id.system_name));
    put(&mut m, "programming_date", field_value(&id.programming_date));
    put(&mut m, "tester_serial", field_value(&id.tester_serial));
    object_value(m)
}

fn encoded(bytes: &Option<Vec<u8>>) -> (r: Value)
    ensures
        json_of(r) == Json::Text(b64_or_empty(*bytes)),
{
    let text = match bytes {
        Some(b) => b64(b.as_slice()),
        None => {
            let none: Vec<u8> = Vec::new();
            assert(none@ =~= Seq::empty());
            b64(none.as_slice())
        },
    };
    text_value(text.as_str())
}

/// The document on an installed firmware: its identity, its files with their
/// digests, and the signature and the signed manifest for whoever wants to check
/// them.
pub fn installed_manifest_json(fw: &InstalledFirmware) -> (r: Value)
    ensures
        json_of(r) == installed_json(*fw),
{
    let mut files: Vec<Value> = Vec::new();
    let mut i: usize = 0;
    while i < fw.files.len()
        invariant
            i <= fw.files@.len(),
            files@.len() == i,
            forall|j: int| 0 <= j < i ==> json_of(#[trigger] files@[j]) == file_json(fw.files@[j]),
        decreases fw.files@.len() - i,
    {
        let mut f = new_object();
        put(&mut f, "path", text_value(fw.files[i].name.as_str()));
        let digest = hex_of(fw.files[i].sha256.as_slice());
        put(&mut f, "sha256", text_value(digest.as_str()));
        files.push(object_value(f));
        i += 1;
    }
    assert(files@.map_values(|x: Value| json_of(x)) =~= fw.files@.map_values(
        |f: InstalledFile| file_json(f),
    ));
    let mut m = new_object();
    put(&mut m, "ivd_version", unsigned_value(fw.ivd_version));
    put(&mut m, "gen", unsigned_value(fw.gen));
    put(&mut m, "signed_at_unix", unsigned_value(fw.signed_at_unix));
    put(&mut m, "identity", identity_value_json(&fw.identity));
    put(&mut m, "files", list_value(files));
    put(&mut m, "signature_b64", encoded(&fw.signature));
    put(&mut m, "manifest_b64", encoded(&fw.raw));
    object_value(m)
}

// ---------------------------------------------------------------------------
// Reading
// ---------------------------------------------------------------------------

/// A value that was read.
#[derive(Debug)]
pub struct DataValue {
    pub id: String,
    pub name: String,
    pub value: Value,
    pub raw: Option<String>,
    pub did: Option<String>,
    pub length: Option<usize>,
}

/// A value that was read.
pub struct DataView {
    pub id: Seq<char>,
    pub name: Seq<char>,
    pub value: Json,
    pub raw: Option<Seq<char>>,
    pub did: Option<Seq<char>>,
    pub length: Option<usize>,
}

impl View for DataValue {
    type V = DataView;

    open spec fn view(&self) -> DataView {
        DataView {
            id: self.id@,
            name: self.name@,
            value: json_of(self.value),
            raw: text_option(self.raw),
            did: text_option(self.did),
            length: self.length,
        }
    }
}

/// The bytes of a number, the highest first.
pub open spec fn be32(n: u32) -> Seq<u8> {
    seq![
        (n / 0x100_0000) as u8,
        (n / 0x1_0000 % 0x100) as u8,
        (n / 0x100 % 0x100) as u8,
        (n % 0x100) as u8,
    ]
}

fn hex32(n: u32) -> (r: String)
    ensures
        r@ == hex_text(be32(n)),
{
    let mut bytes: Vec<u8> = Vec::new();
    bytes.push((n / 0x100_0000) as u8);
    bytes.push((n / 0x1_0000 % 0x100) as u8);
    bytes.push((n / 0x100 % 0x100) as u8);
    bytes.push((n % 0x100) as u8);
    assert(bytes@ =~= be32(n));
    hex_of(bytes.as_slice())
}

/// The number of a value in hexadecimal.
pub open spec fn did_text(did: u16) -> Seq<char> {
    upper_hex_text(did as nat, 4)
}

/// The name that a value is shown with.
pub open spec fn shown_name(id: Seq<char>, reg: Option<EntrySpec>) -> Seq<char> {
    match reg {
        Some(e) => e.name,
        None => id,
    }
}

/// What the health of a guest gives for the state of the guest.
pub open spec fn guest_state_value(health: Option<GuestHealth>) -> (Json, Seq<char>) {
    match health {
        Some(h) => (Json::Text(state_word(h.guest_state)), hex_text(be32(h.guest_state))),
        None => (Json::Text("offline"@), "ffffffff"@),
    }
}

/// What the health of a guest gives for the count of its heartbeats.
pub open spec fn heartbeat_value(health: Option<GuestHealth>) -> (Json, Seq<char>) {
    match health {
        Some(h) => (Json::Unsigned(h.hb_seq as u64), hex_text(be32(h.hb_seq))),
        None => (Json::Unsigned(0), "00000000"@),
    }
}

/// The health behind a reference.
pub open spec fn health_of(h: Option<&GuestHealth>) -> Option<GuestHealth> {
    match h {
        Some(x) => Some(*x),
        None => None,
    }
}

/// The document on how a component is updated.
pub open spec fn update_mode(b: ComponentBackend, declared: ResetKind) -> Json {
    Json::Object(
        no_members().insert("update_mode"@, Json::Text(b.shape())).insert(
            "supports_rollback"@,
            Json::Bool(b.setup.config.supports_rollback),
        ).insert("dual_bank"@, Json::Bool(!b.setup.config.single_bank)).insert(
            "reset_kind"@,
            Json::Text(b.reset_needed(declared).name()),
        ),
    )
}

/// What refreshing the served values did.
pub open spec fn values_refreshed(
    before: ComponentBackend,
    after: ComponentBackend,
    dids: Seq<u16>,
    values: Seq<Option<Vec<u8>>>,
    installed: Option<InstalledFirmware>,
) -> bool {
    &&& after.setup == before.setup
    &&& after.running_bank == before.running_bank
    &&& after.book == before.book
    &&& after.manifest_cache == (match installed {
        Some(fw) => Some((before.running_bank, fw)),
        None => None,
    })
    &&& after.did_cache@ == (match installed {
        Some(fw) => overlaid(
            ComponentBackend::found(dids, values, dids.len()),
            fw.identity,
        ),
        None => ComponentBackend::found(dids, values, dids.len()),
    })
}

/// What reading the firmware of a bank left behind.
pub open spec fn firmware_remembered(
    before: ComponentBackend,
    after: ComponentBackend,
    bank: Bank,
    read: Option<InstalledFirmware>,
) -> bool {
    &&& after == (ComponentBackend {
        manifest_cache: match read {
            Some(fw) => Some((bank, fw)),
            None => before.manifest_cache,
        },
        ..before
    })
    &&& read matches Some(fw) ==> after.remembered(bank) == Some(fw)
}

/// What reading parameters gave.
pub open spec fn data_read(
    b: ComponentBackend,
    ids: Seq<String>,
    health: Seq<Option<GuestHealth>>,
    serving: Bank,
    declared: ResetKind,
    r: Result<Vec<DataValue>, BackendError>,
) -> bool {
    match r {
        Ok(values) => values@.len() == ids.len() && forall|i: int|
            0 <= i < values@.len() ==> b.reading(ids[i]@, health[i], serving, declared) == Ok::<
                DataView,
                BackendFault,
            >((#[trigger] values@[i])@),
        Err(e) => exists|i: int| #[trigger]
            b.first_unreadable(ids, health, serving, declared, i, e@),
    }
}

/// Whether a parameter may be written.
pub open spec fn write_judged(n: DidNumbers, id: Seq<char>, r: Result<u16, BackendError>) -> bool {
    match resolved(n, id) {
        None => refused(r, BackendFault::ParameterNotFound(id)),
        Some((did, reg)) => match reg {
            Some(e) => if e.writable {
                r == Ok::<u16, BackendError>(did)
            } else {
                refused(
                    r,
                    BackendFault::InvalidRequest(
                        "DID 0x"@ + did_text(did) + " ("@ + e.name + ") is read-only"@,
                    ),
                )
            },
            None => r == Ok::<u16, BackendError>(did),
        },
    }
}

/// What writing a value came to.
pub open spec fn store_answered(outcome: Result<bool, String>, r: Result<(), BackendError>) -> bool {
    match outcome {
        Ok(true) => r is Ok,
        Ok(false) => refused(r, BackendFault::Internal("runtime DID store full"@)),
        Err(why) => refused(r, BackendFault::Internal(why@)),
    }
}

/// A value that tells how the guest is.
pub open spec fn health_did(n: DidNumbers, did: u16) -> bool {
    did == n.guest_state || did == n.heartbeat_seq
}

impl ComponentBackend {
    /// The installed firmware that is remembered for a bank.
    pub open spec fn remembered(self, bank: Bank) -> Option<InstalledFirmware> {
        match self.manifest_cache {
            Some((b, fw)) => if b == bank {
                Some(fw)
            } else {
                None
            },
            None => None,
        }
    }

    /// The bank whose firmware is served: the one that the boot selector has
    /// chosen, else the one that the component runs from.
    pub fn serving_bank(&self, selected: Option<Bank>) -> (r: Bank)
        ensures
            r == self.serving(selected),
    {
        match selected {
            Some(b) => b,
            None => self.running_bank,
        }
    }

    /// The bank whose firmware is served.
    pub open spec fn serving(self, selected: Option<Bank>) -> Bank {
        match selected {
            Some(b) => b,
            None => self.running_bank,
        }
    }

    /// The installed firmware that is remembered for a bank.
    pub fn verified_bank_manifest(&self, bank: Bank) -> (r: Option<&InstalledFirmware>)
        ensures
            match r {
                Some(fw) => self.remembered(bank) == Some(*fw),
                None => self.remembered(bank) is None,
            },
    {
        match &self.manifest_cache {
            Some(pair) => {
                if pair.0 == bank {
                    Some(&pair.1)
                } else {
                    None
                }
            },
            None => None,
        }
    }

    /// Takes what reading the firmware of a bank gave. A bank without firmware
    /// that can be read leaves what is remembered alone.
    pub fn installed_read(&mut self, bank: Bank, read: Option<InstalledFirmware>)
        requires
            old(self).wf(),
        ensures
            final(self).wf(),
            firmware_remembered(*old(self), *final(self), bank, read),
    {
        if let Some(fw) = read {
            self.manifest_cache = Some((bank, fw));
        }
    }

    /// The numbers of the values that the non-volatile store is asked for.
    pub open spec fn stored_dids(n: DidNumbers, k: nat) -> Seq<u16>
        decreases k,
    {
        if k == 0 {
            Seq::empty()
        } else {
            let before = Self::stored_dids(n, (k - 1) as nat);
            if health_did(n, registry(n)[k - 1].did) {
                before
            } else {
                before.push(registry(n)[k - 1].did)
            }
        }
    }

    /// The numbers of the values that the non-volatile store is asked for: all but
    /// those that tell how the guest is.
    pub fn did_reads(&self) -> (r: Vec<u16>)
        ensures
            r@ == Self::stored_dids(self.setup.did_numbers, registry(self.setup.did_numbers).len()),
    {
        let n = self.setup.did_numbers;
        let reg = did_registry(&n);
        let mut r: Vec<u16> = Vec::new();
        let mut i: usize = 0;
        assert(reg@.len() == registry(n).len()) by {
            assert(entries_spec(reg@).len() == reg@.len());
        }
        while i < reg.len()
            invariant
                i <= reg@.len(),
                reg@.len() == registry(n).len(),
                entries_spec(reg@) == registry(n),
                r@ == Self::stored_dids(n, i as nat),
            decreases reg@.len() - i,
        {
            assert(entries_spec(reg@)[i as int] == reg@[i as int]@);
            if reg[i].did != n.guest_state && reg[i].did != n.heartbeat_seq {
                r.push(reg[i].did);
            }
            i += 1;
        }
        r
    }

    /// The values that were found, by their number.
    pub open spec fn found(dids: Seq<u16>, values: Seq<Option<Vec<u8>>>, k: nat) -> Map<
        u16,
        Seq<u8>,
    >
        decreases k,
    {
        if k == 0 {
            no_dids()
        } else {
            let before = Self::found(dids, values, (k - 1) as nat);
            match values[k - 1] {
                Some(v) => before.insert(dids[k - 1], v@),
                None => before,
            }
        }
    }

    /// Replaces the served values: by what the non-volatile store has for
    /// `did_reads`, with the identity of the firmware of the running bank laid
    /// over it. What was remembered of installed firmware is forgotten.
    pub fn refresh_did_cache(
        &mut self,
        dids: &Vec<u16>,
        values: Vec<Option<Vec<u8>>>,
        installed: Option<InstalledFirmware>,
    )
        requires
            old(self).wf(),
            dids@.len() == values@.len(),
        ensures
            final(self).wf(),
            values_refreshed(*old(self), *final(self), dids@, values@, installed),
    {
        let mut cache = DidCache::new();
        let mut i: usize = 0;
        while i < dids.len()
            invariant
                i <= dids@.len(),
                dids@.len() == values@.len(),
                cache@ == Self::found(dids@, values@, i as nat),
            decreases dids@.len() - i,
        {
            if let Some(v) = &values[i] {
                cache.insert(dids[i], crate::firmware::copy_bytes(v));
            }
            i += 1;
        }
        self.manifest_cache = None;
        if let Some(fw) = installed {
            lay_identity(&mut cache, &fw.identity);
            self.manifest_cache = Some((self.running_bank, fw));
        }
        self.did_cache = cache;
    }

    /// The document on how the component is updated.
    pub fn update_mode_json(&self, declared: ResetKind) -> (r: Value)
        ensures
            json_of(r) == update_mode(*self, declared),
    {
        let mut m = new_object();
        put(&mut m, "update_mode", text_value(self.update_shape()));
        put(&mut m, "supports_rollback", bool_value(self.setup.config.supports_rollback));
        put(&mut m, "dual_bank", bool_value(!self.setup.config.single_bank));
        put(&mut m, "reset_kind", text_value(self.reset_kind(declared).as_str()));
        object_value(m)
    }

    /// Whether the health of the guest is needed to read a parameter.
    pub fn needs_health(&self, param_id: &str) -> (r: bool)
        ensures
            r == self.asks_health(param_id@),
    {
        if same_text(param_id, INSTALLED_MANIFEST_PARAM_ID) || same_text(
            param_id,
            UPDATE_MODE_PARAM_ID,
        ) {
            return false;
        }
        match resolve_param(&self.setup.did_numbers, param_id) {
            Some(p) => p.0 == self.setup.did_numbers.guest_state || p.0
                == self.setup.did_numbers.heartbeat_seq,
            None => false,
        }
    }

    /// The health of the guest is needed to read a parameter.
    pub open spec fn asks_health(self, id: Seq<char>) -> bool {
        &&& id != INSTALLED_MANIFEST_PARAM_ID@
        &&& id != UPDATE_MODE_PARAM_ID@
        &&& match resolved(self.setup.did_numbers, id) {
            Some((did, _)) => health_did(self.setup.did_numbers, did),
            None => false,
        }
    }

    /// What reading a parameter gives, or why it cannot be read.
    pub open spec fn reading(
        self,
        id: Seq<char>,
        health: Option<GuestHealth>,
        serving: Bank,
        declared: ResetKind,
    ) -> Result<DataView, BackendFault> {
        let n = self.setup.did_numbers;
        if id == INSTALLED_MANIFEST_PARAM_ID@ {
            match self.remembered(serving) {
                Some(fw) => Ok(
                    DataView {
                        id,
                        name: "Installed firmware manifest (signed IVD)"@,
                        value: installed_json(fw),
                        raw: None,
                        did: None,
                        length: None,
                    },
                ),
                None => Err(BackendFault::EntityNotFound(no_manifest(self.setup.id(), serving))),
            }
        } else if id == UPDATE_MODE_PARAM_ID@ {
            Ok(
                DataView {
                    id,
                    name: "Component update-mode"@,
                    value: update_mode(self, declared),
                    raw: None,
                    did: None,
                    length: None,
                },
            )
        } else {
            match resolved(n, id) {
                None => Err(BackendFault::ParameterNotFound(id)),
                Some((did, reg)) => if health_did(n, did) {
                    let v = if did == n.guest_state {
                        guest_state_value(health)
                    } else {
                        heartbeat_value(health)
                    };
                    Ok(
                        DataView {
                            id,
                            name: shown_name(id, reg),
                            value: v.0,
                            raw: Some(v.1),
                            did: Some(did_text(did)),
                            length: Some(4),
                        },
                    )
                } else if self.did_cache@.contains_key(did) {
                    let bytes = self.did_cache@[did];
                    Ok(
                        DataView {
                            id,
                            name: shown_name(id, reg),
                            value: value_json(kind_of(reg), bytes),
                            raw: Some(hex_text(bytes)),
                            did: Some(did_text(did)),
                            length: Some(bytes.len() as usize),
                        },
                    )
                } else {
                    Err(BackendFault::ParameterNotFound(id))
                },
            }
        }
    }

    /// Reads one parameter. `health` is how the guest is, where that is needed;
    /// `serving` is the bank whose firmware is served.
    pub fn read_one(
        &self,
        param_id: &str,
        health: Option<&GuestHealth>,
        serving: Bank,
        declared: ResetKind,
    ) -> (r: Result<DataValue, BackendError>)
        ensures
            match r {
                Ok(v) => self.reading(param_id@, health_of(health), serving, declared) == Ok::<
                    DataView,
                    BackendFault,
                >(v@),
                Err(e) => self.reading(param_id@, health_of(health), serving, declared) == Err::<
                    DataView,
                    BackendFault,
                >(e@),
            },
    {
        if same_text(param_id, INSTALLED_MANIFEST_PARAM_ID) {
            return match self.verified_bank_manifest(serving) {
                Some(fw) => Ok(
                    DataValue {
                        id: param_id.to_owned(),
                        name: "Installed firmware manifest (signed IVD)".to_owned(),
                        value: installed_manifest_json(fw),
                        raw: None,
                        did: None,
                        length: None,
                    },
                ),
                None => Err(
                    BackendError::EntityNotFound(
                        cat5(
                            INSTALLED_MANIFEST_PARAM_ID,
                            ": no committed IVD manifest for ",
                            self.setup.entity_info.id.as_str(),
                            " bank ",
                            serving.as_letter(),
                        ),
                    ),
                ),
            };
        }
        if same_text(param_id, UPDATE_MODE_PARAM_ID) {
            return Ok(
                DataValue {
                    id: param_id.to_owned(),
                    name: "Component update-mode".to_owned(),
                    value: self.update_mode_json(declared),
                    raw: None,
                    did: None,
                    length: None,
                },
            );
        }
        let p = match resolve_param(&self.setup.did_numbers, param_id) {
            Some(p) => p,
            None => {
                return Err(BackendError::ParameterNotFound(param_id.to_owned()));
            },
        };
        let did: u16 = p.0;
        let reg = p.1;
        let name = match reg {
            Some(e) => e.name.to_owned(),
            None => param_id.to_owned(),
        };
        if did == self.setup.did_numbers.guest_state || did
            == self.setup.did_numbers.heartbeat_seq {
            let (value, raw) = if did == self.setup.did_numbers.guest_state {
                match health {
                    Some(h) => (text_value(guest_state_str(h.guest_state)), hex32(h.guest_state)),
                    None => (text_value("offline"), "ffffffff".to_owned()),
                }
            } else {
                match health {
                    Some(h) => (unsigned_value(h.hb_seq as u64), hex32(h.hb_seq)),
                    None => (unsigned_value(0), "00000000".to_owned()),
                }
            };
            return Ok(
                DataValue {
                    id: param_id.to_owned(),
                    name,
                    value,
                    raw: Some(raw),
                    did: Some(upper_hex(did as u32, 4)),
                    length: Some(4),
                },
            );
        }
        match self.did_cache.get(did) {
            Some(bytes) => Ok(
                DataValue {
                    id: param_id.to_owned(),
                    name,
                    value: did_value_to_json(bytes.as_slice(), &reg),
                    raw: Some(hex_of(bytes.as_slice())),
                    did: Some(upper_hex(did as u32, 4)),
                    length: Some(bytes.len()),
                },
            ),
            None => Err(BackendError::ParameterNotFound(param_id.to_owned())),
        }
    }

    /// Reads parameters in their order. `health` holds, for each, how the guest
    /// was when it was asked on its account. The first that cannot be read ends
    /// the reading.
    pub fn read_data(
        &self,
        param_ids: &Vec<String>,
        health: &Vec<Option<GuestHealth>>,
        serving: Bank,
        declared: ResetKind,
    ) -> (r: Result<Vec<DataValue>, BackendError>)
        requires
            param_ids@.len() == health@.len(),
        ensures
            data_read(*self, param_ids@, health@, serving, declared, r),
    {
        let mut values: Vec<DataValue> = Vec::new();
        let mut i: usize = 0;
        while i < param_ids.len()
            invariant
                i <= param_ids@.len(),
                param_ids@.len() == health@.len(),
                values@.len() == i,
                forall|j: int|
                    0 <= j < i ==> self.reading(param_ids@[j]@, health@[j], serving, declared)
                        == Ok::<DataView, BackendFault>((#[trigger] values@[j])@),
            decreases param_ids@.len() - i,
        {
            let h: Option<&GuestHealth> = match &health[i] {
                Some(h) => Some(h),
                None => None,
            };
            assert(health_of(h) == health@[i as int]);
            match self.read_one(param_ids[i].as_str(), h, serving, declared) {
                Ok(v) => {
                    values.push(v);
                },
                Err(e) => {
                    proof {
                        assert forall|j: int| 0 <= j < i implies (#[trigger] self.reading(
                            param_ids@[j]@,
                            health@[j],
                            serving,
                            declared,
                        )) is Ok by {
                            let v = values@[j];
                            assert(self.reading(param_ids@[j]@, health@[j], serving, declared)
                                == Ok::<DataView, BackendFault>(v@));
                        }
                        assert(self.first_unreadable(
                            param_ids@,
                            health@,
                            serving,
                            declared,
                            i as int,
                            e@,
                        ));
                    }
                    return Err(e);
                },
            }
            i += 1;
        }
        Ok(values)
    }

    /// The parameter at `i` is the first that cannot be read, and why.
    pub open spec fn first_unreadable(
        self,
        ids: Seq<String>,
        health: Seq<Option<GuestHealth>>,
        serving: Bank,
        declared: ResetKind,
        i: int,
        why: BackendFault,
    ) -> bool {
        &&& 0 <= i < ids.len()
        &&& self.reading(ids[i]@, health[i], serving, declared) == Err::<DataView, BackendFault>(
            why,
        )
        &&& forall|j: int|
            0 <= j < i ==> (#[trigger] self.reading(ids[j]@, health[j], serving, declared)) is Ok
    }

    /// Whether a parameter may be written, and under which number. What the
    /// non-volatile store makes of it is told to `data_written`.
    pub fn write_data(&self, param_id: &str) -> (r: Result<u16, BackendError>)
        ensures
            write_judged(self.setup.did_numbers, param_id@, r),
    {
        let p = match resolve_param(&self.setup.did_numbers, param_id) {
            Some(p) => p,
            None => {
                return Err(BackendError::ParameterNotFound(param_id.to_owned()));
            },
        };
        if let Some(e) = p.1 {
            if !e.writable {
                let number = upper_hex(p.0 as u32, 4);
                return Err(
                    BackendError::InvalidRequest(
                        cat5("DID 0x", number.as_str(), " (", e.name, ") is read-only"),
                    ),
                );
            }
        }
        Ok(p.0)
    }
}

/// What writing a value comes to: the store may be full, or may fail.
pub fn data_written(outcome: Result<bool, String>) -> (r: Result<(), BackendError>)
    ensures
        store_answered(outcome, r),
{
    match outcome {
        Ok(stored) => if stored {
            Ok(())
        } else {
            Err(BackendError::Internal("runtime DID store full".to_owned()))
        },
        Err(why) => Err(BackendError::Internal(why)),
    }
}

/// What a request for the manifest of a bank without one is refused with.
pub open spec fn no_manifest(component: Seq<char>, bank: Bank) -> Seq<char> {
    INSTALLED_MANIFEST_PARAM_ID@ + ": no committed IVD manifest for "@ + component + " bank "@
        + bank.letter()
}

/// How a component is updated can always be read, before any update too.
pub proof fn law_update_mode_is_always_served(
    b: ComponentBackend,
    health: Option<GuestHealth>,
    serving: Bank,
    declared: ResetKind,
)
    ensures
        b.reading(UPDATE_MODE_PARAM_ID@, health, serving, declared) is Ok,
{
    reveal_strlit("x-sumo-update-mode");
    reveal_strlit("x-sumo-installed-manifest");
    assert(UPDATE_MODE_PARAM_ID@.len() != INSTALLED_MANIFEST_PARAM_ID@.len());
}

/// A value that comes out of the manifest reads back as the manifest has it: once the
/// identity of the firmware was laid over the values, each of them that the manifest
/// gives is listed and reads as its bytes. The numbers that tell how a guest is have
/// to be other numbers.
pub proof fn law_identity_reads_back(
    b: ComponentBackend,
    values: Map<u16, Seq<u8>>,
    identity: FirmwareIdentity,
    i: int,
    health: Option<GuestHealth>,
    serving: Bank,
    declared: ResetKind,
)
    requires
        0 <= i < registry(b.setup.did_numbers).len(),
        b.did_cache@ == overlaid(values, identity),
        identity_value(identity, registry(b.setup.did_numbers)[i].did) is Some,
        !health_did(b.setup.did_numbers, registry(b.setup.did_numbers)[i].did),
    ensures
        ({
            let e = registry(b.setup.did_numbers)[i];
            let bytes = identity_value(identity, e.did)->0;
            &&& identity_did(e.did)
            &&& b.reading(e.id, health, serving, declared) == Ok::<DataView, BackendFault>(
                DataView {
                    id: e.id,
                    name: e.name,
                    value: value_json(e.kind, bytes),
                    raw: Some(hex_text(bytes)),
                    did: Some(did_text(e.did)),
                    length: Some(bytes.len() as usize),
                },
            )
        }),
{
    let n = b.setup.did_numbers;
    let e = registry(n)[i];
    law_overlay_touches_identity_only(values, identity, e.did);
    law_registry_ids_resolve(n, i);
    lemma_ids_begin_otherwise(n, i);
    reveal_strlit("x-sumo-update-mode");
    reveal_strlit("x-sumo-installed-manifest");
    assert(UPDATE_MODE_PARAM_ID@[0] == 'x' && INSTALLED_MANIFEST_PARAM_ID@[0] == 'x');
}

/// The text of fixed-width bytes ends just before the first zero among them, and with
/// their end where there is none.
pub proof fn law_text_ends_at_the_first_zero(bytes: Seq<u8>)
    ensures
        up_to_nul(bytes).is_prefix_of(bytes),
        forall|i: int| 0 <= i < up_to_nul(bytes).len() ==> #[trigger] up_to_nul(bytes)[i] != 0,
        up_to_nul(bytes).len() < bytes.len() ==> bytes[up_to_nul(bytes).len() as int] == 0,
    decreases bytes.len(),
{
    let front = up_to_nul(bytes);
    if bytes.len() > 0 && bytes[0] != 0 {
        let rest = bytes.drop_first();
        law_text_ends_at_the_first_zero(rest);
        assert(front =~= seq![bytes[0]] + up_to_nul(rest));
        assert(bytes.take(front.len() as int) =~= front) by {
            assert forall|i: int| 0 <= i < front.len() implies bytes[i] == #[trigger] front[i] by {
                if i > 0 {
                    assert(rest.take(up_to_nul(rest).len() as int)[i - 1] == up_to_nul(rest)[i
                        - 1]);
                }
            }
        }
    } else {
        assert(bytes.take(0) =~= front);
    }
}

/// A truth value reads as true exactly where its first byte is there and is not zero. A
/// small number reads as its byte, and zero without one. A number of four bytes reads as
/// the number that they make up, the lowest first, and as zero where there are fewer.
pub proof fn law_bytes_read_as_their_kind(bytes: Seq<u8>, n: u32)
    ensures
        value_json(DataKind::Bool, bytes) matches Json::Bool(yes) && (yes <==> bytes.len() > 0
            && bytes[0] != 0),
        bytes.len() > 0 ==> value_json(DataKind::Uint8, bytes) == Json::Unsigned(bytes[0] as u64),
        bytes.len() == 0 ==> value_json(DataKind::Uint8, bytes) == Json::Unsigned(0),
        bytes.len() < 4 ==> value_json(DataKind::Uint32, bytes) == Json::Unsigned(0),
        value_json(
            DataKind::Uint32,
            seq![
                (n % 256) as u8,
                (n / 256 % 256) as u8,
                (n / 65536 % 256) as u8,
                (n / 16777216) as u8,
            ],
        ) == Json::Unsigned(n as u64),
        value_json(DataKind::Text, bytes) == Json::Text(lossy_text(up_to_nul(bytes))),
{
}

/// A row of bytes reads as the text before its first zero where that is printable, and
/// else as all its bytes in hexadecimal.
pub proof fn law_rows_of_bytes_read_as_text_or_hex(bytes: Seq<u8>, text: Seq<char>)
    requires
        !bytes.contains(0),
    ensures
        ({
            let shown = text.len() > 0 && forall|i: int|
                0 <= i < text.len() ==> 32 <= (#[trigger] text[i]) as int <= 126;
            valid_utf8(bytes) && decode_utf8(bytes) == text && shown ==> value_json(
                DataKind::Bytes,
                bytes,
            ) == Json::Text(text)
        }),
        !valid_utf8(bytes) || decode_utf8(bytes).len() == 0 ==> value_json(DataKind::Bytes, bytes)
            == Json::Text("0x"@ + hex_text(bytes)),
        (exists|i: int|
            0 <= i < decode_utf8(bytes).len() && !(32 <= (#[trigger] decode_utf8(bytes)[i]) as int
                <= 126)) ==> value_json(DataKind::Bytes, bytes) == Json::Text(
            "0x"@ + hex_text(bytes),
        ),
{
    law_text_ends_at_the_first_zero(bytes);
    if up_to_nul(bytes).len() < bytes.len() {
        assert(bytes.contains(bytes[up_to_nul(bytes).len() as int]));
    }
    assert(up_to_nul(bytes) =~= bytes);
    if text.len() > 0 && forall|i: int|
        0 <= i < text.len() ==> 32 <= (#[trigger] text[i]) as int <= 126 {
        assert forall|i: int| 0 <= i < text.len() implies printable(#[trigger] text[i]) by {
            assert(32 <= text[i] as int <= 126);
        }
        assert(all_printable(text));
    }
    if exists|i: int|
        0 <= i < decode_utf8(bytes).len() && !(32 <= (#[trigger] decode_utf8(bytes)[i]) as int
            <= 126) {
        let i = choose|i: int|
            0 <= i < decode_utf8(bytes).len() && !(32 <= (#[trigger] decode_utf8(bytes)[i]) as int
                <= 126);
        assert(!printable(decode_utf8(bytes)[i]));
    }
}

/// A field of the firmware's identity goes into the value with its number: cut to its
/// width or filled up with zeros, a date to eight bytes and anything else to thirty-two.
/// A field that is absent or empty gives none, and so does any other number.
pub proof fn law_each_identity_field_has_its_number(id: FirmwareIdentity, did: u16)
    ensures
        identity_field(id, 0xF187) == text_option(id.spare_part_number),
        identity_field(id, 0xF188) == text_option(id.ecu_sw_number),
        identity_field(id, 0xF189) == text_option(id.version),
        identity_field(id, 0xF194) == text_option(id.supplier_sw_number),
        identity_field(id, 0xF195) == text_option(id.supplier_sw_version),
        identity_field(id, 0xF197) == text_option(id.system_name),
        identity_field(id, 0xF198) == text_option(id.tester_serial),
        identity_field(id, 0xF199) == text_option(id.programming_date),
        identity_field(id, 0xF19E) == text_option(id.odx_file_id),
        identity_field(id, did) is Some ==> identity_did(did),
        identity_value(id, did) is Some <==> (identity_field(id, did) matches Some(s) && s.len()
            > 0),
        identity_value(id, did) matches Some(v) ==> {
            let bytes = encode_utf8(identity_field(id, did)->0);
            &&& v.len() == (if did == 0xF199 {
                8nat
            } else {
                32
            })
            &&& forall|i: int| 0 <= i < v.len() && i < bytes.len() ==> #[trigger] v[i] == bytes[i]
            &&& forall|i: int| bytes.len() <= i < v.len() ==> #[trigger] v[i] == 0
        },
{
}

/// The values that come out of the manifest are those nine and no other.
pub proof fn law_the_identity_numbers(did: u16)
    ensures
        identity_did(did) <==> did == 0xF187 || did == 0xF188 || did == 0xF189 || did == 0xF194
            || did == 0xF195 || did == 0xF197 || did == 0xF198 || did == 0xF199 || did == 0xF19E,
{
}

/// The document on an installed firmware has each fact under its own key.
pub proof fn law_the_manifest_is_served_whole(fw: InstalledFirmware)
    ensures
        ({
            let j = installed_json(fw);
            &&& j.member("ivd_version"@) == Some(Json::Unsigned(fw.ivd_version))
            &&& j.member("gen"@) == Some(Json::Unsigned(fw.gen))
            &&& j.member("signed_at_unix"@) == Some(Json::Unsigned(fw.signed_at_unix))
            &&& j.member("identity"@) == Some(identity_json(fw.identity))
            &&& j.member("files"@) matches Some(Json::List(files))
            &&& files.len() == fw.files@.len()
            &&& forall|i: int|
                0 <= i < files.len() ==> (#[trigger] files[i]).member("path"@) == Some(
                    Json::Text(fw.files@[i].name@),
                ) && files[i].member("sha256"@) == Some(Json::Text(hex_text(fw.files@[i].sha256@)))
            &&& fw.signature matches Some(s) ==> j.member("signature_b64"@) == Some(
                Json::Text(b64_text(s@)),
            )
            &&& fw.raw matches Some(m) ==> j.member("manifest_b64"@) == Some(
                Json::Text(b64_text(m@)),
            )
        }),
{
    reveal_strlit("ivd_version");
    reveal_strlit("gen");
    reveal_strlit("signed_at_unix");
    reveal_strlit("identity");
    reveal_strlit("files");
    reveal_strlit("signature_b64");
    reveal_strlit("manifest_b64");
    reveal_strlit("path");
    reveal_strlit("sha256");
    assert("ivd_version"@.len() == 11 && "gen"@.len() == 3 && "signed_at_unix"@.len() == 14);
    assert("identity"@.len() == 8 && "files"@.len() == 5 && "signature_b64"@.len() == 13);
    assert("manifest_b64"@.len() == 12 && "path"@.len() == 4 && "sha256"@.len() == 6);
}

/// The document on an identity has each field under its own key, and an empty text for
/// one that is absent.
pub proof fn law_the_identity_is_served_whole(id: FirmwareIdentity)
    ensures
        ({
            let j = identity_json(id);
            &&& j.member("name"@) == Some(Json::Text(or_empty(text_option(id.name))))
            &&& j.member("version"@) == Some(Json::Text(or_empty(text_option(id.version))))
            &&& j.member("ecu_sw_number"@) == Some(
                Json::Text(or_empty(text_option(id.ecu_sw_number))),
            )
            &&& j.member("supplier_sw_number"@) == Some(
                Json::Text(or_empty(text_option(id.supplier_sw_number))),
            )
            &&& j.member("supplier_sw_version"@) == Some(
                Json::Text(or_empty(text_option(id.supplier_sw_version))),
            )
            &&& j.member("spare_part_number"@) == Some(
                Json::Text(or_empty(text_option(id.spare_part_number))),
            )
            &&& j.member("odx_file_id"@) == Some(Json::Text(or_empty(text_option(id.odx_file_id))))
            &&& j.member("system_name"@) == Some(Json::Text(or_empty(text_option(id.system_name))))
            &&& j.member("programming_date"@) == Some(
                Json::Text(or_empty(text_option(id.programming_date))),
            )
            &&& j.member("tester_serial"@) == Some(
                Json::Text(or_empty(text_option(id.tester_serial))),
            )
            &&& or_empty(None).len() == 0
            &&& forall|t: Seq<char>| #[trigger] or_empty(Some(t)) == t
        }),
{
    reveal_strlit("name");
    reveal_strlit("version");
    reveal_strlit("ecu_sw_number");
    reveal_strlit("supplier_sw_number");
    reveal_strlit("supplier_sw_version");
    reveal_strlit("spare_part_number");
    reveal_strlit("odx_file_id");
    reveal_strlit("system_name");
    reveal_strlit("programming_date");
    reveal_strlit("tester_serial");
    assert("name"@.len() == 4 && "version"@.len() == 7 && "supplier_sw_number"@.len() == 18);
    assert("supplier_sw_version"@.len() == 19 && "spare_part_number"@.len() == 17);
    assert("programming_date"@.len() == 16);
    assert("ecu_sw_number"@.len() == 13 && "tester_serial"@.len() == 13);
    assert("ecu_sw_number"@[0] == 'e' && "tester_serial"@[0] == 't');
    assert("odx_file_id"@.len() == 11 && "system_name"@.len() == 11);
    assert("odx_file_id"@[0] == 'o' && "system_name"@[0] == 's');
}

/// How a component is updated is told member by member: whether it can roll back,
/// whether it has two banks, and what restarts.
pub proof fn law_the_update_mode_is_told(b: ComponentBackend, declared: ResetKind)
    ensures
        ({
            let j = update_mode(b, declared);
            &&& j.member("update_mode"@) == Some(
                Json::Text(
                    if b.setup.config.single_bank {
                        "singleshot"@
                    } else {
                        "banked"@
                    },
                ),
            )
            &&& j.member("supports_rollback"@) == Some(
                Json::Bool(b.setup.config.supports_rollback),
            )
            &&& j.member("dual_bank"@) == Some(Json::Bool(!b.setup.config.single_bank))
            &&& j.member("reset_kind"@) == Some(
                Json::Text(
                    if declared is RequiresEcuReset && (b.setup.fittings.activator
                        || b.setup.fittings.provider_override) {
                        "requires_ecu_reset"@
                    } else {
                        "local"@
                    },
                ),
            )
        }),
{
    reveal_strlit("update_mode");
    reveal_strlit("supports_rollback");
    reveal_strlit("dual_bank");
    reveal_strlit("reset_kind");
    assert("update_mode"@.len() == 11 && "supports_rollback"@.len() == 17);
    assert("dual_bank"@.len() == 9 && "reset_kind"@.len() == 10);
}

/// A guest that does not answer is offline and has no heartbeat; one that does reads as
/// it is. The raw form of a number are its four bytes, the highest first.
pub proof fn law_the_guest_reads_as_it_is(health: Option<GuestHealth>, n: u32)
    ensures
        health is None ==> guest_state_value(health).0 == Json::Text("offline"@) && heartbeat_value(
            health,
        ).0 == Json::Unsigned(0),
        health matches Some(h) ==> {
            &&& guest_state_value(health) == (
                Json::Text(state_word(h.guest_state)),
                hex_text(be32(h.guest_state)),
            )
            &&& heartbeat_value(health) == (
                Json::Unsigned(h.hb_seq as u64),
                hex_text(be32(h.hb_seq)),
            )
        },
        be32(n).len() == 4,
        be32(n)[0] * 16777216 + be32(n)[1] * 65536 + be32(n)[2] * 256 + be32(n)[3] == n,
{
}

/// What the boot selector chose is served, and without a choice the bank that the
/// component runs from. Firmware is remembered for the bank that it was read from, and
/// for no other; a bank whose firmware cannot be read changes nothing.
pub proof fn law_firmware_is_remembered_by_bank(
    before: ComponentBackend,
    after: ComponentBackend,
    bank: Bank,
    read: Option<InstalledFirmware>,
    selected: Option<Bank>,
)
    requires
        firmware_remembered(before, after, bank, read),
    ensures
        selected matches Some(b) ==> before.serving(selected) == b,
        selected is None ==> before.serving(selected) == before.running_bank,
        read matches Some(fw) ==> after.remembered(bank) == Some(fw) && after.remembered(
            bank.sibling(),
        ) is None,
        read is None ==> after.remembered(bank) == before.remembered(bank),
        after.book == before.book,
        after.running_bank == before.running_bank,
{
}

proof fn lemma_found(dids: Seq<u16>, values: Seq<Option<Vec<u8>>>, k: nat, did: u16)
    requires
        k <= dids.len(),
        dids.len() == values.len(),
    ensures
        ComponentBackend::found(dids, values, k).contains_key(did) <==> exists|i: int|
            0 <= i < k && #[trigger] dids[i] == did && values[i] is Some,
        forall|i: int|
            0 <= i < k && dids[i] == did && values[i] is Some && (forall|j: int|
                i < j < k ==> (#[trigger] dids[j]) != did || values[j] is None)
                ==> ComponentBackend::found(dids, values, k)[did] == (#[trigger] values[i])->0@,
    decreases k,
{
    if k > 0 {
        let m = (k - 1) as nat;
        lemma_found(dids, values, m, did);
        let before = ComponentBackend::found(dids, values, m);
        let now = ComponentBackend::found(dids, values, k);
        if now.contains_key(did) {
            if dids[k - 1] == did && values[k - 1] is Some {
            } else {
                assert(before.contains_key(did));
                let i = choose|i: int| 0 <= i < m && #[trigger] dids[i] == did && values[i] is Some;
                assert(0 <= i < k && dids[i] == did && values[i] is Some);
            }
        }
        assert forall|i: int|
            0 <= i < k && dids[i] == did && values[i] is Some && (forall|j: int|
                i < j < k ==> (#[trigger] dids[j]) != did || values[j] is None) implies now[did]
            == (#[trigger] values[i])->0@ by {
            if i < k - 1 {
                assert(dids[k - 1] != did || values[k - 1] is None);
                assert(forall|j: int| i < j < m ==> (#[trigger] dids[j]) != did || values[j] is None);
                assert(before[did] == values[i]->0@);
                assert(before.contains_key(did));
            }
        }
    }
}

/// Refreshing serves what the store has now, each value under its number, and over it
/// what the manifest of the running bank gives; nothing that was served before stays.
/// The firmware is remembered for the running bank, and forgotten where there is none.
pub proof fn law_refreshing_serves_what_is_stored(
    before: ComponentBackend,
    after: ComponentBackend,
    dids: Seq<u16>,
    values: Seq<Option<Vec<u8>>>,
    installed: Option<InstalledFirmware>,
    did: u16,
    i: int,
)
    requires
        values_refreshed(before, after, dids, values, installed),
        dids.len() == values.len(),
    ensures
        installed is None || !identity_did(did) ==> {
            &&& after.did_cache@.contains_key(did) ==> exists|k: int|
                0 <= k < dids.len() && #[trigger] dids[k] == did && values[k] is Some
            &&& 0 <= i < dids.len() && dids[i] == did && values[i] is Some && (forall|j: int|
                i < j < dids.len() ==> (#[trigger] dids[j]) != did || values[j] is None) ==> {
                &&& after.did_cache@.contains_key(did)
                &&& after.did_cache@[did] == values[i]->0@
            }
        },
        installed matches Some(fw) ==> {
            &&& after.remembered(before.running_bank) == Some(fw)
            &&& identity_value(fw.identity, did) matches Some(v) ==> {
                &&& after.did_cache@.contains_key(did)
                &&& after.did_cache@[did] == v
            }
        },
        installed is None ==> after.remembered(Bank::A) is None && after.remembered(Bank::B)
            is None,
{
    lemma_found(dids, values, dids.len(), did);
    if 0 <= i < dids.len() && dids[i] == did && values[i] is Some {
        assert(values[i] is Some);
    }
    if let Some(fw) = installed {
        law_overlay_touches_identity_only(
            ComponentBackend::found(dids, values, dids.len()),
            fw.identity,
            did,
        );
    }
}

/// A value of the registry reads as its bytes say by its kind, with the bytes as they are
/// stored and their number; one that is not stored cannot be read. What tells how the
/// guest is comes from the guest and not from the store.
pub proof fn law_registered_values_read_back(
    b: ComponentBackend,
    i: int,
    health: Option<GuestHealth>,
    serving: Bank,
    declared: ResetKind,
)
    requires
        0 <= i < registry(b.setup.did_numbers).len(),
    ensures
        ({
            let n = b.setup.did_numbers;
            let e = registry(n)[i];
            let r = b.reading(e.id, health, serving, declared);
            let told = e.did == n.guest_state || e.did == n.heartbeat_seq;
            &&& r is Ok <==> told || b.did_cache@.contains_key(e.did)
            &&& r matches Err(why) ==> why == BackendFault::ParameterNotFound(e.id)
            &&& r matches Ok(v) ==> v.id == e.id && v.name == e.name && v.did == Some(
                upper_hex_text(e.did as nat, 4),
            )
            &&& !told ==> (r matches Ok(v) ==> {
                let bytes = b.did_cache@[e.did];
                &&& v.value == value_json(e.kind, bytes)
                &&& v.raw == Some(hex_text(bytes))
                &&& v.length == Some(bytes.len() as usize)
            })
            &&& e.did == n.guest_state ==> r->Ok_0.value == guest_state_value(health).0
            &&& e.did == n.heartbeat_seq && e.did != n.guest_state ==> r->Ok_0.value
                == heartbeat_value(health).0
        }),
{
    let n = b.setup.did_numbers;
    law_registry_ids_resolve(n, i);
    lemma_ids_begin_otherwise(n, i);
    reveal_strlit("x-sumo-update-mode");
    reveal_strlit("x-sumo-installed-manifest");
    assert(UPDATE_MODE_PARAM_ID@[0] == 'x' && INSTALLED_MANIFEST_PARAM_ID@[0] == 'x');
}

/// Whether an update is confirmed reads back as the boot state says: a store that holds
/// the flag as one byte is read as that flag, and the count of boots as that count.
pub proof fn law_the_boot_state_reads_back(
    b: ComponentBackend,
    boot: crate::banks::BankBootState,
    health: Option<GuestHealth>,
    serving: Bank,
    declared: ResetKind,
)
    requires
        ({
            let n = b.setup.did_numbers;
            &&& !health_did(n, n.committed)
            &&& !health_did(n, n.boot_count)
            &&& b.did_cache@.contains_key(n.committed)
            &&& b.did_cache@[n.committed] == seq![
                if boot.committed {
                    1u8
                } else {
                    0u8
                },
            ]
            &&& b.did_cache@.contains_key(n.boot_count)
            &&& b.did_cache@[n.boot_count] == seq![boot.boot_count]
        }),
    ensures
        b.reading("committed"@, health, serving, declared) matches Ok(v) && v.value == Json::Bool(
            boot.committed,
        ),
        b.reading("boot_count"@, health, serving, declared) matches Ok(v) && v.value
            == Json::Unsigned(boot.boot_count as u64),
{
    let n = b.setup.did_numbers;
    law_registered_values_read_back(b, 17, health, serving, declared);
    law_registered_values_read_back(b, 20, health, serving, declared);
    law_bytes_read_as_their_kind(b.did_cache@[n.committed], 0);
    law_bytes_read_as_their_kind(b.did_cache@[n.boot_count], 0);
    assert(registry(n)[17].id == "committed"@ && registry(n)[17].did == n.committed);
    assert(registry(n)[20].id == "boot_count"@ && registry(n)[20].did == n.boot_count);
}

/// The signed manifest can be read exactly where the firmware of the served bank is
/// remembered, and is then that firmware's.
pub proof fn law_the_served_manifest_is_the_banks(
    b: ComponentBackend,
    health: Option<GuestHealth>,
    serving: Bank,
    declared: ResetKind,
)
    ensures
        ({
            let r = b.reading("x-sumo-installed-manifest"@, health, serving, declared);
            &&& r is Ok <==> b.remembered(serving) is Some
            &&& r matches Ok(v) ==> v.value == installed_json(b.remembered(serving)->0)
            &&& r matches Err(why) ==> why is EntityNotFound
        }),
{
}

/// Reading several parameters gives the value of each, in order, or the refusal of the
/// first that cannot be read.
pub proof fn law_parameters_are_read_in_order(
    b: ComponentBackend,
    ids: Seq<String>,
    health: Seq<Option<GuestHealth>>,
    serving: Bank,
    declared: ResetKind,
    r: Result<Vec<DataValue>, BackendError>,
    i: int,
)
    requires
        data_read(b, ids, health, serving, declared, r),
        0 <= i < ids.len(),
    ensures
        r is Ok ==> {
            &&& r->Ok_0@.len() == ids.len()
            &&& b.reading(ids[i]@, health[i], serving, declared) is Ok
            &&& b.reading(ids[i]@, health[i], serving, declared)->Ok_0 == r->Ok_0@[i]@
        },
        (forall|j: int|
            0 <= j < i ==> (#[trigger] b.reading(ids[j]@, health[j], serving, declared)) is Ok)
            && b.reading(ids[i]@, health[i], serving, declared) is Err ==> (r matches Err(e) && e@
            == b.reading(ids[i]@, health[i], serving, declared)->Err_0),
{
    if let Ok(values) = r {
        assert(b.reading(ids[i]@, health[i], serving, declared) == Ok::<DataView, BackendFault>(
            values@[i]@,
        ));
    }
    if let Err(e) = r {
        let k = choose|k: int| #[trigger]
            b.first_unreadable(ids, health, serving, declared, k, e@);
        if k < i {
            assert(b.reading(ids[k]@, health[k], serving, declared) is Err);
        }
    }
}

/// No value of the registry can be written. A number that is not in the registry can,
/// under that number; what is neither an id nor a number is not found.
pub proof fn law_the_registry_is_read_only(n: DidNumbers, id: Seq<char>, r: Result<u16, BackendError>)
    requires
        write_judged(n, id, r),
    ensures
        (exists|i: int| 0 <= i < registry(n).len() && (#[trigger] registry(n)[i]).id == id) ==> (r
            matches Err(e) && e@ is InvalidRequest),
        r matches Ok(did) ==> {
            &&& resolved(n, id) matches Some((d, _))
            &&& d == did
            &&& forall|i: int| 0 <= i < registry(n).len() ==> (#[trigger] registry(n)[i]).did != did
        },
        resolved(n, id) is None ==> (r matches Err(e) && e@ == BackendFault::ParameterNotFound(id)),
{
    if exists|i: int| 0 <= i < registry(n).len() && (#[trigger] registry(n)[i]).id == id {
        let i = choose|i: int| 0 <= i < registry(n).len() && (#[trigger] registry(n)[i]).id == id;
        law_registry_ids_resolve(n, i);
        crate::backend::dids::law_nothing_registered_is_writable(n, i);
    }
    if let Some((did, reg)) = resolved(n, id) {
        crate::backend::dids::law_resolved_entries_are_registered(n, id);
        if let Some(e) = reg {
            let i = choose|i: int| 0 <= i < registry(n).len() && #[trigger] registry(n)[i] == e;
            crate::backend::dids::law_nothing_registered_is_writable(n, i);
        }
    }
}

/// Writing a value works exactly where the store took it.
pub proof fn law_the_store_decides(outcome: Result<bool, String>, r: Result<(), BackendError>)
    requires
        store_answered(outcome, r),
    ensures
        r is Ok <==> (outcome matches Ok(stored) && stored),
        r matches Err(e) ==> e@ is Internal,
        outcome matches Err(why) ==> r->Err_0@ == BackendFault::Internal(why@),
{
}

/// The health of the guest is asked for exactly for the two values that tell it.
pub proof fn law_health_is_asked_for_when_it_is_told(b: ComponentBackend, i: int)
    requires
        0 <= i < registry(b.setup.did_numbers).len(),
    ensures
        ({
            let n = b.setup.did_numbers;
            let e = registry(n)[i];
            b.asks_health(e.id) <==> e.did == n.guest_state || e.did == n.heartbeat_seq
        }),
        !b.asks_health("x-sumo-installed-manifest"@),
        !b.asks_health("x-sumo-update-mode"@),
{
    let n = b.setup.did_numbers;
    law_registry_ids_resolve(n, i);
    lemma_ids_begin_otherwise(n, i);
    reveal_strlit("x-sumo-update-mode");
    reveal_strlit("x-sumo-installed-manifest");
    assert(UPDATE_MODE_PARAM_ID@[0] == 'x' && INSTALLED_MANIFEST_PARAM_ID@[0] == 'x');
}

proof fn lemma_stored(n: DidNumbers, k: nat, did: u16)
    requires
        k <= registry(n).len(),
    ensures
        ComponentBackend::stored_dids(n, k).contains(did) <==> exists|i: int|
            0 <= i < k && (#[trigger] registry(n)[i]).did == did && did != n.guest_state && did
                != n.heartbeat_seq,
    decreases k,
{
    if k > 0 {
        let m = (k - 1) as nat;
        lemma_stored(n, m, did);
        let before = ComponentBackend::stored_dids(n, m);
        let now = ComponentBackend::stored_dids(n, k);
        if before.contains(did) {
            let at = choose|at: int| 0 <= at < before.len() && before[at] == did;
            assert(now[at] == did);
        }
        if now.contains(did) {
            let at = choose|at: int| 0 <= at < now.len() && now[at] == did;
            if at < before.len() {
                assert(before[at] == did);
                assert(before.contains(did));
                let i = choose|i: int|
                    0 <= i < m && (#[trigger] registry(n)[i]).did == did && did != n.guest_state
                        && did != n.heartbeat_seq;
                assert(0 <= i < k && registry(n)[i].did == did);
            } else {
                assert(registry(n)[k - 1].did == did);
            }
        }
        if exists|i: int|
            0 <= i < k && (#[trigger] registry(n)[i]).did == did && did != n.guest_state && did
                != n.heartbeat_seq {
            let i = choose|i: int|
                0 <= i < k && (#[trigger] registry(n)[i]).did == did && did != n.guest_state && did
                    != n.heartbeat_seq;
            if i < m {
                assert(before.contains(did));
            } else {
                assert(now[before.len() as int] == did);
            }
        }
    }
}

/// The store is asked for every value of the registry but the two that tell how the
/// guest is, and for no other.
pub proof fn law_the_store_is_asked_for_the_registry(n: DidNumbers, did: u16)
    ensures
        ComponentBackend::stored_dids(n, registry(n).len()).contains(did) <==> {
            &&& did != n.guest_state
            &&& did != n.heartbeat_seq
            &&& exists|i: int| 0 <= i < registry(n).len() && (#[trigger] registry(n)[i]).did == did
        },
{
    lemma_stored(n, registry(n).len(), did);
    if did != n.guest_state && did != n.heartbeat_seq && exists|i: int|
        0 <= i < registry(n).len() && (#[trigger] registry(n)[i]).did == did {
        let i = choose|i: int| 0 <= i < registry(n).len() && (#[trigger] registry(n)[i]).did == did;
        assert(0 <= i < registry(n).len() && registry(n)[i].did == did && did != n.guest_state
            && did != n.heartbeat_seq);
    }
}

/// Refreshing the served values changes nothing of the component but what it serves: it
/// is made of the same, runs from the same bank, and its update goes on as it was.
pub proof fn law_refreshing_touches_only_what_is_served(
    before: ComponentBackend,
    after: ComponentBackend,
    dids: Seq<u16>,
    values: Seq<Option<Vec<u8>>>,
    installed: Option<InstalledFirmware>,
)
    requires
        values_refreshed(before, after, dids, values, installed),
    ensures
        after.setup == before.setup,
        after.running_bank == before.running_bank,
        after.book == before.book,
        after.manifest_cache is Some <==> installed is Some,
        installed matches Some(fw) ==> after.manifest_cache == Some((before.running_bank, fw)),
{
}

} // verus!
