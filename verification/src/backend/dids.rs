//! The numbered values of a component.

use crate::text::{
    begins_with, chars_of, piece_of, same_text, upper_hex_char, upper_hex_text,
};
use vstd::prelude::*;

verus! {

/// The numbers of the values that a component makes up itself.
#[derive(Debug, Clone, Copy, PartialEq, Eq, Structural)]
pub struct DidNumbers {
    pub active_bank: u16,
    pub committed: u16,
    pub min_security_ver: u16,
    pub current_security_ver: u16,
    pub boot_count: u16,
    pub guest_state: u16,
    pub heartbeat_seq: u16,
}

/// No values.
pub open spec fn no_dids() -> Map<u16, Seq<u8>> {
    Map::empty()
}

/// The values that a list of pairs gives: a later pair displaces an earlier one.
pub open spec fn dids_map(pairs: Seq<(u16, Vec<u8>)>) -> Map<u16, Seq<u8>>
    decreases pairs.len(),
{
    if pairs.len() == 0 {
        no_dids()
    } else {
        dids_map(pairs.drop_last()).insert(pairs.last().0, pairs.last().1@)
    }
}

/// Values by their number.
#[derive(Debug, Clone)]
pub struct DidCache {
    pairs: Vec<(u16, Vec<u8>)>,
}

impl View for DidCache {
    type V = Map<u16, Seq<u8>>;

    closed spec fn view(&self) -> Map<u16, Seq<u8>> {
        dids_map(self.pairs@)
    }
}

impl DidCache {
    /// No values.
    pub fn new() -> (c: DidCache)
        ensures
            c@ == no_dids(),
    {
        DidCache { pairs: Vec::new() }
    }

    /// Puts a value under a number.
    pub fn insert(&mut self, did: u16, bytes: Vec<u8>)
        ensures
            final(self)@ == old(self)@.insert(did, bytes@),
    {
        let ghost before = self.pairs@;
        self.pairs.push((did, bytes));
        assert(self.pairs@.drop_last() =~= before);
    }

    /// The value under a number.
    pub fn get(&self, did: u16) -> (r: Option<&Vec<u8>>)
        ensures
            match r {
                Some(v) => self@.contains_key(did) && v@ == self@[did],
                None => !self@.contains_key(did),
            },
    {
        let mut i: usize = self.pairs.len();
        assert(self.pairs@.take(i as int) =~= self.pairs@);
        while i > 0
            invariant
                i <= self.pairs@.len(),
                self@.contains_key(did) == dids_map(self.pairs@.take(i as int)).contains_key(did),
                self@.contains_key(did) ==> self@[did] == dids_map(
                    self.pairs@.take(i as int),
                )[did],
            decreases i,
        {
            i -= 1;
            assert(self.pairs@.take(i as int + 1).drop_last() =~= self.pairs@.take(i as int));
            if self.pairs[i].0 == did {
                return Some(&self.pairs[i].1);
            }
        }
        None
    }
}

// ---------------------------------------------------------------------------
// The registry
// ---------------------------------------------------------------------------

/// How the bytes of a value are read.
#[derive(Debug, Clone, Copy, PartialEq, Eq, Structural)]
pub enum DataKind {
    Text,
    Bool,
    Uint8,
    Uint32,
    Bytes,
}

impl DataKind {
    /// The word for a kind.
    pub open spec fn word(self) -> Seq<char> {
        match self {
            DataKind::Text => "string"@,
            DataKind::Bool => "bool"@,
            DataKind::Uint8 => "uint8"@,
            DataKind::Uint32 => "uint32"@,
            DataKind::Bytes => "bytes"@,
        }
    }

    /// The word for a kind.
    pub fn as_str(self) -> (r: &'static str)
        ensures
            r@ == self.word(),
    {
        match self {
            DataKind::Text => "string",
            DataKind::Bool => "bool",
            DataKind::Uint8 => "uint8",
            DataKind::Uint32 => "uint32",
            DataKind::Bytes => "bytes",
        }
    }
}

/// A value that every component has.
#[derive(Debug, Clone, Copy)]
pub struct DidEntry {
    pub id: &'static str,
    pub did: u16,
    pub name: &'static str,
    pub kind: DataKind,
    pub writable: bool,
}

/// A value that every component has.
pub struct EntrySpec {
    pub id: Seq<char>,
    pub did: u16,
    pub name: Seq<char>,
    pub kind: DataKind,
    pub writable: bool,
}

impl View for DidEntry {
    type V = EntrySpec;

    open spec fn view(&self) -> EntrySpec {
        EntrySpec {
            id: self.id@,
            did: self.did,
            name: self.name@,
            kind: self.kind,
            writable: self.writable,
        }
    }
}

pub const DID_SPARE_PART_NUMBER: u16 = 0xF187;

pub const DID_ECU_SW_NUMBER: u16 = 0xF188;

pub const DID_FW_VERSION: u16 = 0xF189;

pub const DID_SUPPLIER_ID: u16 = 0xF18A;

pub const DID_MANUFACTURING_DATE: u16 = 0xF18B;

pub const DID_SERIAL_NUMBER: u16 = 0xF18C;

pub const DID_VIN: u16 = 0xF190;

pub const DID_ECU_HW_NUMBER: u16 = 0xF191;

pub const DID_SUPPLIER_HW_NUMBER: u16 = 0xF192;

pub const DID_SUPPLIER_HW_VERSION: u16 = 0xF193;

pub const DID_SUPPLIER_SW_NUMBER: u16 = 0xF194;

pub const DID_SUPPLIER_SW_VERSION: u16 = 0xF195;

pub const DID_SYSTEM_NAME: u16 = 0xF197;

pub const DID_TESTER_SERIAL: u16 = 0xF198;

pub const DID_PROGRAMMING_DATE: u16 = 0xF199;

pub const DID_ODX_FILE_ID: u16 = 0xF19E;

/// A value that cannot be written.
pub open spec fn entry(id: Seq<char>, did: u16, name: Seq<char>, kind: DataKind) -> EntrySpec {
    EntrySpec { id, did, name, kind, writable: false }
}

/// The values that every component has, in their order.
pub open spec fn registry(n: DidNumbers) -> Seq<EntrySpec> {
    seq![
        entry("spare_part_number"@, DID_SPARE_PART_NUMBER, "Spare Part Number"@, DataKind::Text),
        entry("ecu_sw_number"@, DID_ECU_SW_NUMBER, "ECU Software Number"@, DataKind::Text),
        entry("fw_version"@, DID_FW_VERSION, "Firmware Version"@, DataKind::Text),
        entry("supplier_id"@, DID_SUPPLIER_ID, "Supplier ID"@, DataKind::Text),
        entry("manufacturing_date"@, DID_MANUFACTURING_DATE, "Manufacturing Date"@, DataKind::Text),
        entry("serial_number"@, DID_SERIAL_NUMBER, "Serial Number"@, DataKind::Text),
        entry("vin"@, DID_VIN, "VIN"@, DataKind::Text),
        entry("ecu_hw_number"@, DID_ECU_HW_NUMBER, "ECU Hardware Number"@, DataKind::Text),
        entry("supplier_hw_number"@, DID_SUPPLIER_HW_NUMBER, "Supplier HW Number"@, DataKind::Text),
        entry("supplier_hw_version"@, DID_SUPPLIER_HW_VERSION, "Supplier HW Version"@, DataKind::Text),
        entry("supplier_sw_number"@, DID_SUPPLIER_SW_NUMBER, "Supplier SW Number"@, DataKind::Text),
        entry("supplier_sw_version"@, DID_SUPPLIER_SW_VERSION, "Supplier SW Version"@, DataKind::Text),
        entry("system_name"@, DID_SYSTEM_NAME, "System Name"@, DataKind::Text),
        entry("tester_serial"@, DID_TESTER_SERIAL, "Tester Serial"@, DataKind::Text),
        entry("programming_date"@, DID_PROGRAMMING_DATE, "Programming Date"@, DataKind::Text),
        entry("odx_file_id"@, DID_ODX_FILE_ID, "ODX File ID"@, DataKind::Text),
        entry("active_bank"@, n.active_bank, "Active Bank"@, DataKind::Text),
        entry("committed"@, n.committed, "Committed"@, DataKind::Bool),
        entry("min_security_ver"@, n.min_security_ver, "Min Security Version"@, DataKind::Uint32),
        entry("current_security_ver"@, n.current_security_ver, "Current Security Version"@, DataKind::Uint32),
        entry("boot_count"@, n.boot_count, "Boot Count"@, DataKind::Uint8),
        entry("guest_state"@, n.guest_state, "Guest State"@, DataKind::Text),
        entry("heartbeat_seq"@, n.heartbeat_seq, "Heartbeat Seq"@, DataKind::Uint32),
    ]
}

/// What a list of values says.
pub open spec fn entries_spec(entries: Seq<DidEntry>) -> Seq<EntrySpec> {
    entries.map_values(|e: DidEntry| e@)
}

fn fixed_entry(id: &'static str, did: u16, name: &'static str, kind: DataKind) -> (r: DidEntry)
    ensures
        r@ == entry(id@, did, name@, kind),
{
    DidEntry { id, did, name, kind, writable: false }
}

/// The values that every component has, in their order.
pub fn did_registry(n: &DidNumbers) -> (r: Vec<DidEntry>)
    ensures
        entries_spec(r@) == registry(*n),
{
    let mut r: Vec<DidEntry> = Vec::new();
    r.push(fixed_entry("spare_part_number", DID_SPARE_PART_NUMBER, "Spare Part Number", DataKind::Text));
    r.push(fixed_entry("ecu_sw_number", DID_ECU_SW_NUMBER, "ECU Software Number", DataKind::Text));
    r.push(fixed_entry("fw_version", DID_FW_VERSION, "Firmware Version", DataKind::Text));
    r.push(fixed_entry("supplier_id", DID_SUPPLIER_ID, "Supplier ID", DataKind::Text));
    r.push(fixed_entry("manufacturing_date", DID_MANUFACTURING_DATE, "Manufacturing Date", DataKind::Text));
    r.push(fixed_entry("serial_number", DID_SERIAL_NUMBER, "Serial Number", DataKind::Text));
    r.push(fixed_entry("vin", DID_VIN, "VIN", DataKind::Text));
    r.push(fixed_entry("ecu_hw_number", DID_ECU_HW_NUMBER, "ECU Hardware Number", DataKind::Text));
    r.push(fixed_entry("supplier_hw_number", DID_SUPPLIER_HW_NUMBER, "Supplier HW Number", DataKind::Text));
    r.push(fixed_entry("supplier_hw_version", DID_SUPPLIER_HW_VERSION, "Supplier HW Version", DataKind::Text));
    r.push(fixed_entry("supplier_sw_number", DID_SUPPLIER_SW_NUMBER, "Supplier SW Number", DataKind::Text));
    r.push(fixed_entry("supplier_sw_version", DID_SUPPLIER_SW_VERSION, "Supplier SW Version", DataKind::Text));
    r.push(fixed_entry("system_name", DID_SYSTEM_NAME, "System Name", DataKind::Text));
    r.push(fixed_entry("tester_serial", DID_TESTER_SERIAL, "Tester Serial", DataKind::Text));
    r.push(fixed_entry("programming_date", DID_PROGRAMMING_DATE, "Programming Date", DataKind::Text));
    r.push(fixed_entry("odx_file_id", DID_ODX_FILE_ID, "ODX File ID", DataKind::Text));
    r.push(fixed_entry("active_bank", n.active_bank, "Active Bank", DataKind::Text));
    r.push(fixed_entry("committed", n.committed, "Committed", DataKind::Bool));
    r.push(fixed_entry("min_security_ver", n.min_security_ver, "Min Security Version", DataKind::Uint32));
    r.push(fixed_entry("current_security_ver", n.current_security_ver, "Current Security Version", DataKind::Uint32));
    r.push(fixed_entry("boot_count", n.boot_count, "Boot Count", DataKind::Uint8));
    r.push(fixed_entry("guest_state", n.guest_state, "Guest State", DataKind::Text));
    r.push(fixed_entry("heartbeat_seq", n.heartbeat_seq, "Heartbeat Seq", DataKind::Uint32));
    assert(entries_spec(r@) =~= registry(*n));
    r
}

/// The first value from `from` on that has the id.
pub open spec fn entry_by_id(reg: Seq<EntrySpec>, id: Seq<char>, from: nat) -> Option<EntrySpec>
    decreases reg.len() - from,
{
    if from >= reg.len() {
        None
    } else if reg[from as int].id == id {
        Some(reg[from as int])
    } else {
        entry_by_id(reg, id, from + 1)
    }
}

/// The first value from `from` on that has the number.
pub open spec fn entry_by_did(reg: Seq<EntrySpec>, did: u16, from: nat) -> Option<EntrySpec>
    decreases reg.len() - from,
{
    if from >= reg.len() {
        None
    } else if reg[from as int].did == did {
        Some(reg[from as int])
    } else {
        entry_by_did(reg, did, from + 1)
    }
}

/// What an entry says, where there is one.
pub open spec fn entry_option(e: Option<DidEntry>) -> Option<EntrySpec> {
    match e {
        Some(x) => Some(x@),
        None => None,
    }
}

fn find_id(reg: &Vec<DidEntry>, id: &str) -> (r: Option<DidEntry>)
    ensures
        entry_option(r) == entry_by_id(entries_spec(reg@), id@, 0),
{
    let mut i: usize = 0;
    while i < reg.len()
        invariant
            i <= reg@.len(),
            entry_by_id(entries_spec(reg@), id@, 0) == entry_by_id(
                entries_spec(reg@),
                id@,
                i as nat,
            ),
        decreases reg@.len() - i,
    {
        if same_text(reg[i].id, id) {
            return Some(reg[i]);
        }
        i += 1;
    }
    None
}

pub(crate) fn find_did(reg: &Vec<DidEntry>, did: u16) -> (r: Option<DidEntry>)
    ensures
        entry_option(r) == entry_by_did(entries_spec(reg@), did, 0),
{
    let mut i: usize = 0;
    while i < reg.len()
        invariant
            i <= reg@.len(),
            entry_by_did(entries_spec(reg@), did, 0) == entry_by_did(
                entries_spec(reg@),
                did,
                i as nat,
            ),
        decreases reg@.len() - i,
    {
        if reg[i].did == did {
            return Some(reg[i]);
        }
        i += 1;
    }
    None
}

// ---------------------------------------------------------------------------
// Names of parameters
// ---------------------------------------------------------------------------

/// A text without any number of copies of a part at its front.
pub open spec fn strip_all(s: Seq<char>, part: Seq<char>) -> Seq<char>
    decreases s.len(),
{
    if part.len() > 0 && part.is_prefix_of(s) {
        strip_all(s.skip(part.len() as int), part)
    } else {
        s
    }
}

fn strip_front(s: String, part: &str) -> (r: String)
    requires
        part@.len() > 0,
    ensures
        r@ == strip_all(s@, part@),
{
    let mut rest = s;
    let width: usize = chars_of(part).len();
    while begins_with(rest.as_str(), part)
        invariant
            part@.len() > 0,
            width == part@.len(),
            strip_all(s@, part@) == strip_all(rest@, part@),
        decreases rest@.len(),
    {
        let cs = chars_of(rest.as_str());
        let shorter = piece_of(&cs, width, cs.len());
        assert(shorter@ =~= rest@.skip(part@.len() as int));
        rest = shorter;
    }
    rest
}

/// The value of a hexadecimal digit of either case.
pub open spec fn hex_digit(c: char) -> Option<nat> {
    if '0' <= c <= '9' {
        Some((c as int - '0' as int) as nat)
    } else if 'a' <= c <= 'f' {
        Some((c as int - 'a' as int + 10) as nat)
    } else if 'A' <= c <= 'F' {
        Some((c as int - 'A' as int + 10) as nat)
    } else {
        None
    }
}

/// The value of a row of hexadecimal digits.
pub open spec fn hex_digits(s: Seq<char>) -> Option<nat>
    decreases s.len(),
{
    if s.len() == 0 {
        Some(0)
    } else {
        match (hex_digits(s.drop_last()), hex_digit(s.last())) {
            (Some(v), Some(d)) => Some(v * 16 + d),
            _ => None,
        }
    }
}

/// The number of sixteen bits that a text writes in hexadecimal, with at most one
/// plus sign in front.
pub open spec fn hex16(s: Seq<char>) -> Option<u16> {
    let digits = if s.len() > 0 && s[0] == '+' {
        s.drop_first()
    } else {
        s
    };
    if digits.len() == 0 {
        None
    } else {
        match hex_digits(digits) {
            Some(v) => if v <= 0xffff {
                Some(v as u16)
            } else {
                None
            },
            None => None,
        }
    }
}

fn digit_value(c: char) -> (r: Option<u32>)
    ensures
        match r {
            Some(d) => hex_digit(c) == Some(d as nat) && d < 16,
            None => hex_digit(c) is None,
        },
{
    if '0' <= c && c <= '9' {
        Some(c as u32 - '0' as u32)
    } else if 'a' <= c && c <= 'f' {
        Some(c as u32 - 'a' as u32 + 10)
    } else if 'A' <= c && c <= 'F' {
        Some(c as u32 - 'A' as u32 + 10)
    } else {
        None
    }
}

proof fn lemma_hex_digits_grow(s: Seq<char>, n: int)
    requires
        0 <= n <= s.len(),
        hex_digits(s) is Some,
    ensures
        hex_digits(s.take(n)) is Some,
        hex_digits(s.take(n))->0 <= hex_digits(s)->0,
    decreases s.len(),
{
    if n == s.len() {
        assert(s.take(n) =~= s);
    } else {
        lemma_hex_digits_grow(s.drop_last(), n);
        assert(s.drop_last().take(n) =~= s.take(n));
    }
}

/// The number of sixteen bits that a text writes in hexadecimal.
pub fn parse_hex16(s: &str) -> (r: Option<u16>)
    ensures
        r == hex16(s@),
{
    let cs = chars_of(s);
    let from: usize = if cs.len() > 0 && cs[0] == '+' {
        1
    } else {
        0
    };
    let ghost digits = s@.skip(from as int);
    proof {
        if from == 1 {
            assert(digits =~= s@.drop_first());
        } else {
            assert(digits =~= s@);
        }
    }
    if from == cs.len() {
        return None;
    }
    let mut v: u32 = 0;
    let mut i: usize = from;
    assert(digits.take(0) =~= Seq::empty());
    while i < cs.len()
        invariant
            from <= i <= cs@.len(),
            cs@ == s@,
            digits == s@.skip(from as int),
            hex16(s@) == (match hex_digits(digits) {
                Some(x) => if x <= 0xffff {
                    Some(x as u16)
                } else {
                    None
                },
                None => None,
            }),
            hex_digits(digits.take(i - from)) == Some(v as nat),
            v <= 0xffff,
        decreases cs@.len() - i,
    {
        proof {
            let upto = digits.take(i - from + 1);
            assert(upto.drop_last() =~= digits.take(i - from));
            assert(upto.last() == cs@[i as int]);
            if hex_digits(digits) is Some {
                lemma_hex_digits_grow(digits, i - from + 1);
            }
        }
        match digit_value(cs[i]) {
            Some(d) => {
                v = v * 16 + d;
            },
            None => {
                return None;
            },
        }
        if v > 0xffff {
            return None;
        }
        i += 1;
    }
    assert(digits.take(i - from) =~= digits);
    Some(v as u16)
}

/// The text that the number of a parameter is read from.
pub open spec fn bare_number(id: Seq<char>) -> Seq<char> {
    strip_all(strip_all(strip_all(id, "0x"@), "0X"@), "runtime_"@)
}

/// The number of a parameter, and the entry that it has in the registry. A
/// parameter goes by its id, or else by its number in hexadecimal.
pub open spec fn resolved(n: DidNumbers, id: Seq<char>) -> Option<(u16, Option<EntrySpec>)> {
    match entry_by_id(registry(n), id, 0) {
        Some(e) => Some((e.did, Some(e))),
        None => match hex16(bare_number(id)) {
            Some(did) => Some((did, entry_by_did(registry(n), did, 0))),
            None => None,
        },
    }
}

/// The number of a parameter, and the entry that it has in the registry.
pub fn resolve_param(n: &DidNumbers, param_id: &str) -> (r: Option<(u16, Option<DidEntry>)>)
    ensures
        match r {
            Some(p) => resolved(*n, param_id@) == Some((p.0, entry_option(p.1))),
            None => resolved(*n, param_id@) is None,
        },
{
    let reg = did_registry(n);
    if let Some(e) = find_id(&reg, param_id) {
        return Some((e.did, Some(e)));
    }
    proof {
        reveal_strlit("0x");
        reveal_strlit("0X");
        reveal_strlit("runtime_");
    }
    let a = strip_front(param_id.to_owned(), "0x");
    let b = strip_front(a, "0X");
    let c = strip_front(b, "runtime_");
    match parse_hex16(c.as_str()) {
        Some(did) => Some((did, find_did(&reg, did))),
        None => None,
    }
}

/// A number by which the ids of the registry can be told apart.
spec fn mark_of(id: Seq<char>) -> int {
    let early = id[if id.len() > 9 {
        9
    } else {
        id.len() - 1
    }];
    let late = id[if id.len() > 8 {
        id.len() - 9
    } else {
        0
    }];
    id.len() * 1000000 + early as int * 1000 + late as int
}

/// No two values of the registry have the same id.
pub proof fn law_registry_ids_differ(n: DidNumbers, i: int, j: int)
    requires
        0 <= i < j < registry(n).len(),
    ensures
        registry(n)[i].id != registry(n)[j].id,
{
    reveal_strlit("spare_part_number");
    reveal_strlit("ecu_sw_number");
    reveal_strlit("fw_version");
    reveal_strlit("supplier_id");
    reveal_strlit("manufacturing_date");
    reveal_strlit("serial_number");
    reveal_strlit("vin");
    reveal_strlit("ecu_hw_number");
    reveal_strlit("supplier_hw_number");
    reveal_strlit("supplier_hw_version");
    reveal_strlit("supplier_sw_number");
    reveal_strlit("supplier_sw_version");
    reveal_strlit("system_name");
    reveal_strlit("tester_serial");
    reveal_strlit("programming_date");
    reveal_strlit("odx_file_id");
    reveal_strlit("active_bank");
    reveal_strlit("committed");
    reveal_strlit("min_security_ver");
    reveal_strlit("current_security_ver");
    reveal_strlit("boot_count");
    reveal_strlit("guest_state");
    reveal_strlit("heartbeat_seq");
    let marks: Seq<int> = seq![
        17116114,
        13109115,
        10110119,
        11105112,
        18114114,
        13109097,
        3110118,
        13109104,
        18104104,
        19104119,
        18115115,
        19115119,
        11109115,
        13114101,
        16110109,
        11105120,
        11110116,
        9100099,
        16105117,
        20101117,
        10116111,
        11116101,
        13095116,
    ];
    assert(mark_of("spare_part_number"@) == marks[0]);
    assert(mark_of("ecu_sw_number"@) == marks[1]);
    assert(mark_of("fw_version"@) == marks[2]);
    assert(mark_of("supplier_id"@) == marks[3]);
    assert(mark_of("manufacturing_date"@) == marks[4]);
    assert(mark_of("serial_number"@) == marks[5]);
    assert(mark_of("vin"@) == marks[6]);
    assert(mark_of("ecu_hw_number"@) == marks[7]);
    assert(mark_of("supplier_hw_number"@) == marks[8]);
    assert(mark_of("supplier_hw_version"@) == marks[9]);
    assert(mark_of("supplier_sw_number"@) == marks[10]);
    assert(mark_of("supplier_sw_version"@) == marks[11]);
    assert(mark_of("system_name"@) == marks[12]);
    assert(mark_of("tester_serial"@) == marks[13]);
    assert(mark_of("programming_date"@) == marks[14]);
    assert(mark_of("odx_file_id"@) == marks[15]);
    assert(mark_of("active_bank"@) == marks[16]);
    assert(mark_of("committed"@) == marks[17]);
    assert(mark_of("min_security_ver"@) == marks[18]);
    assert(mark_of("current_security_ver"@) == marks[19]);
    assert(mark_of("boot_count"@) == marks[20]);
    assert(mark_of("guest_state"@) == marks[21]);
    assert(mark_of("heartbeat_seq"@) == marks[22]);
    assert(marks[i] != marks[j]);
    assert forall|k: int| 0 <= k < 23 implies mark_of(#[trigger] registry(n)[k].id) == marks[k] by {
    }
    assert(mark_of(registry(n)[i].id) == marks[i]);
    assert(mark_of(registry(n)[j].id) == marks[j]);
}

/// Every value of the registry answers to its own id.
pub proof fn law_registry_ids_resolve(n: DidNumbers, i: int)
    requires
        0 <= i < registry(n).len(),
    ensures
        resolved(n, registry(n)[i].id) == Some((registry(n)[i].did, Some(registry(n)[i]))),
{
    assert forall|j: int| 0 <= j < i implies registry(n)[j].id != registry(n)[i].id by {
        law_registry_ids_differ(n, j, i);
    }
    lemma_by_id(registry(n), i, 0);
}

/// The ids of the registry begin otherwise than those of the vendor's parameters.
pub(crate) proof fn lemma_ids_begin_otherwise(n: DidNumbers, i: int)
    requires
        0 <= i < registry(n).len(),
    ensures
        registry(n)[i].id.len() > 0,
        registry(n)[i].id[0] != 'x',
{
    reveal_strlit("spare_part_number");
    reveal_strlit("ecu_sw_number");
    reveal_strlit("fw_version");
    reveal_strlit("supplier_id");
    reveal_strlit("manufacturing_date");
    reveal_strlit("serial_number");
    reveal_strlit("vin");
    reveal_strlit("ecu_hw_number");
    reveal_strlit("supplier_hw_number");
    reveal_strlit("supplier_hw_version");
    reveal_strlit("supplier_sw_number");
    reveal_strlit("supplier_sw_version");
    reveal_strlit("system_name");
    reveal_strlit("tester_serial");
    reveal_strlit("programming_date");
    reveal_strlit("odx_file_id");
    reveal_strlit("active_bank");
    reveal_strlit("committed");
    reveal_strlit("min_security_ver");
    reveal_strlit("current_security_ver");
    reveal_strlit("boot_count");
    reveal_strlit("guest_state");
    reveal_strlit("heartbeat_seq");
}

proof fn lemma_by_id(reg: Seq<EntrySpec>, i: int, from: nat)
    requires
        from <= i < reg.len(),
        forall|j: int| 0 <= j < i ==> reg[j].id != reg[i].id,
    ensures
        entry_by_id(reg, reg[i].id, from) == Some(reg[i]),
    decreases i - from,
{
    if from < i {
        assert(reg[from as int].id != reg[i].id);
        lemma_by_id(reg, i, from + 1);
    }
}

/// No value that every component has can be written.
pub proof fn law_nothing_registered_is_writable(n: DidNumbers, i: int)
    requires
        0 <= i < registry(n).len(),
    ensures
        !registry(n)[i].writable,
{
}

pub(crate) proof fn lemma_by_did(reg: Seq<EntrySpec>, did: u16, from: nat)
    requires
        from <= reg.len(),
    ensures
        match entry_by_did(reg, did, from) {
            Some(e) => e.did == did && exists|i: int|
                from <= i < reg.len() && #[trigger] reg[i] == e,
            None => forall|i: int| from <= i < reg.len() ==> (#[trigger] reg[i]).did != did,
        },
    decreases reg.len() - from,
{
    if from < reg.len() && reg[from as int].did != did {
        lemma_by_did(reg, did, from + 1);
        if let Some(e) = entry_by_did(reg, did, from + 1) {
            let i = choose|i: int| from + 1 <= i < reg.len() && #[trigger] reg[i] == e;
            assert(from <= i < reg.len() && reg[i] == e);
        }
    } else if from < reg.len() {
        assert(reg[from as int] == entry_by_did(reg, did, from)->0);
    }
}

proof fn lemma_id_found(reg: Seq<EntrySpec>, id: Seq<char>, from: nat)
    requires
        from <= reg.len(),
    ensures
        entry_by_id(reg, id, from) matches Some(e) ==> e.id == id && exists|i: int|
            from <= i < reg.len() && #[trigger] reg[i] == e,
    decreases reg.len() - from,
{
    if from < reg.len() && reg[from as int].id != id {
        lemma_id_found(reg, id, from + 1);
        if let Some(e) = entry_by_id(reg, id, from + 1) {
            let i = choose|i: int| from + 1 <= i < reg.len() && #[trigger] reg[i] == e;
            assert(from <= i < reg.len() && reg[i] == e);
        }
    } else if from < reg.len() {
        assert(reg[from as int] == entry_by_id(reg, id, from)->0);
    }
}

/// The entry that a parameter resolves to is one of the registry and has the number that
/// it resolves to; a number without an entry is not in the registry.
pub proof fn law_resolved_entries_are_registered(n: DidNumbers, id: Seq<char>)
    ensures
        resolved(n, id) matches Some((did, reg)) ==> match reg {
            Some(e) => e.did == did && exists|i: int|
                0 <= i < registry(n).len() && #[trigger] registry(n)[i] == e,
            None => forall|i: int|
                0 <= i < registry(n).len() ==> (#[trigger] registry(n)[i]).did != did,
        },
{
    lemma_id_found(registry(n), id, 0);
    if let Some((did, _)) = resolved(n, id) {
        lemma_by_did(registry(n), did, 0);
    }
}

/// The values that identify the component have the numbers that the diagnostic standard
/// gives them, and those that it makes up itself have the numbers that it was set up
/// with. All are texts but the flag, the count of boots and the three counters.
pub proof fn law_registered_numbers(n: DidNumbers)
    ensures
        ({
            let r = registry(n);
            let at = |id: Seq<char>| entry_by_id(r, id, 0)->0;
            &&& r.len() == 23
            &&& at("spare_part_number"@).did == 0xF187
            &&& at("ecu_sw_number"@).did == 0xF188
            &&& at("fw_version"@).did == 0xF189
            &&& at("supplier_id"@).did == 0xF18A
            &&& at("manufacturing_date"@).did == 0xF18B
            &&& at("serial_number"@).did == 0xF18C
            &&& at("vin"@).did == 0xF190
            &&& at("ecu_hw_number"@).did == 0xF191
            &&& at("supplier_hw_number"@).did == 0xF192
            &&& at("supplier_hw_version"@).did == 0xF193
            &&& at("supplier_sw_number"@).did == 0xF194
            &&& at("supplier_sw_version"@).did == 0xF195
            &&& at("system_name"@).did == 0xF197
            &&& at("tester_serial"@).did == 0xF198
            &&& at("programming_date"@).did == 0xF199
            &&& at("odx_file_id"@).did == 0xF19E
            &&& at("active_bank"@).did == n.active_bank
            &&& at("committed"@).did == n.committed
            &&& at("min_security_ver"@).did == n.min_security_ver
            &&& at("current_security_ver"@).did == n.current_security_ver
            &&& at("boot_count"@).did == n.boot_count
            &&& at("guest_state"@).did == n.guest_state
            &&& at("heartbeat_seq"@).did == n.heartbeat_seq
            &&& forall|i: int|
                0 <= i < 23 ==> match (#[trigger] r[i]).kind {
                    DataKind::Bool => i == 17,
                    DataKind::Uint8 => i == 20,
                    DataKind::Uint32 => i == 18 || i == 19 || i == 22,
                    DataKind::Text => i < 17 || i == 21,
                    DataKind::Bytes => false,
                }
        }),
{
    assert forall|i: int| 0 <= i < 23 implies entry_by_id(
        registry(n),
        #[trigger] registry(n)[i].id,
        0,
    ) == Some(registry(n)[i]) by {
        law_registry_ids_resolve(n, i);
        lemma_id_found(registry(n), registry(n)[i].id, 0);
        assert forall|j: int| 0 <= j < i implies registry(n)[j].id != registry(n)[i].id by {
            law_registry_ids_differ(n, j, i);
        }
        lemma_by_id(registry(n), i, 0);
    }
    let r = registry(n);
    assert(r[0].id == "spare_part_number"@ && r[1].id == "ecu_sw_number"@);
    assert(r[2].id == "fw_version"@ && r[3].id == "supplier_id"@);
    assert(r[4].id == "manufacturing_date"@ && r[5].id == "serial_number"@);
    assert(r[6].id == "vin"@ && r[7].id == "ecu_hw_number"@);
    assert(r[8].id == "supplier_hw_number"@ && r[9].id == "supplier_hw_version"@);
    assert(r[10].id == "supplier_sw_number"@ && r[11].id == "supplier_sw_version"@);
    assert(r[12].id == "system_name"@ && r[13].id == "tester_serial"@);
    assert(r[14].id == "programming_date"@ && r[15].id == "odx_file_id"@);
    assert(r[16].id == "active_bank"@ && r[17].id == "committed"@);
    assert(r[18].id == "min_security_ver"@ && r[19].id == "current_security_ver"@);
    assert(r[20].id == "boot_count"@ && r[21].id == "guest_state"@);
    assert(r[22].id == "heartbeat_seq"@);
}

proof fn lemma_hex_back(n: nat, width: nat)
    ensures
        hex_digits(upper_hex_text(n, width)) == Some(n),
        upper_hex_text(n, width).len() >= width,
    decreases n + width,
{
    if n > 0 || width > 0 {
        let fewer = if width == 0 {
            0
        } else {
            (width - 1) as nat
        };
        let s = upper_hex_text(n, width);
        lemma_hex_back(n / 16, fewer);
        assert(s.drop_last() =~= upper_hex_text(n / 16, fewer));
        assert(hex_digit(upper_hex_char(n % 16)) == Some(n % 16));
    }
}

/// A number that is written in hexadecimal is read back as the number.
pub proof fn law_numbers_read_back(did: u16)
    ensures
        hex16(upper_hex_text(did as nat, 4)) == Some(did),
{
    lemma_hex_back(did as nat, 4);
    let s = upper_hex_text(did as nat, 4);
    assert(hex_digits(s) is Some);
    if s[0] == '+' {
        lemma_hex_digits_grow(s, 1);
        assert(s.take(1).last() == '+');
    }
}

/// Every number of sixteen bits names a parameter, in either case of its digits, and a
/// digit outside of the sixteen names none.
pub proof fn law_hexadecimal_digits(c: char)
    ensures
        hex_digit(c) is Some <==> ('0' <= c <= '9') || ('a' <= c <= 'f') || ('A' <= c <= 'F'),
        hex_digit(c) matches Some(d) ==> d < 16,
        hex_digit('0') == Some(0nat),
        hex_digit('9') == Some(9nat),
        hex_digit('a') == Some(10nat),
        hex_digit('F') == Some(15nat),
        hex_digit('A') == hex_digit('a'),
        hex_digit('f') == hex_digit('F'),
{
}

/// A number may have a plus sign before it, and a sign alone is no number; nor is one
/// that needs more than sixteen bits.
pub proof fn law_a_number_may_have_a_sign(did: u16)
    ensures
        hex16(seq!['+'] + upper_hex_text(did as nat, 4)) == Some(did),
        hex16(seq!['+']) is None,
        hex16(Seq::<char>::empty()) is None,
{
    law_numbers_read_back(did);
    lemma_hex_back(did as nat, 4);
    let s = upper_hex_text(did as nat, 4);
    let signed = seq!['+'] + s;
    assert(signed.drop_first() =~= s);
    if s[0] == '+' {
        lemma_hex_digits_grow(s, 1);
        assert(s.take(1).last() == '+');
    }
    assert(seq!['+'].drop_first() =~= Seq::empty());
}

/// A number may be named in hexadecimal with or without a sign for that before it, and
/// as a value that was written at run time.
pub proof fn law_a_number_is_named_in_several_ways(s: Seq<char>)
    requires
        !"0x"@.is_prefix_of(s),
        !"0X"@.is_prefix_of(s),
        !"runtime_"@.is_prefix_of(s),
    ensures
        bare_number(s) == s,
        bare_number("0x"@ + s) == s,
        bare_number("0X"@ + s) == s,
        bare_number("runtime_"@ + s) == s,
{
    reveal_strlit("0x");
    reveal_strlit("0X");
    reveal_strlit("runtime_");
    lemma_strip_once(s, "0x"@);
    lemma_strip_once(s, "0X"@);
    lemma_strip_once(s, "runtime_"@);
    let upper = "0X"@ + s;
    assert(!"0x"@.is_prefix_of(upper)) by {
        assert(upper[1] == 'X');
        if "0x"@.is_prefix_of(upper) {
            assert(upper.take(2)[1] == 'x');
        }
    }
    let named = "runtime_"@ + s;
    assert(named[0] == 'r');
    assert(!"0x"@.is_prefix_of(named)) by {
        if "0x"@.is_prefix_of(named) {
            assert(named.take(2)[0] == '0');
        }
    }
    assert(!"0X"@.is_prefix_of(named)) by {
        if "0X"@.is_prefix_of(named) {
            assert(named.take(2)[0] == '0');
        }
    }
    assert(strip_all(upper, "0x"@) == upper);
    assert(strip_all(named, "0x"@) == named);
    assert(strip_all(named, "0X"@) == named);
}

proof fn lemma_strip_once(s: Seq<char>, part: Seq<char>)
    requires
        part.len() > 0,
        !part.is_prefix_of(s),
    ensures
        strip_all(s, part) == s,
        strip_all(part + s, part) == s,
{
    let all = part + s;
    assert(all.take(part.len() as int) =~= part);
    assert(all.skip(part.len() as int) =~= s);
    assert(strip_all(all, part) == strip_all(s, part));
}

/// Each kind of value has its word.
pub proof fn law_words_of_kinds(k: DataKind)
    ensures
        k is Text <==> k.word() == "string"@,
        k is Bool <==> k.word() == "bool"@,
        k is Uint8 <==> k.word() == "uint8"@,
        k is Uint32 <==> k.word() == "uint32"@,
        k is Bytes <==> k.word() == "bytes"@,
{
    reveal_strlit("string");
    reveal_strlit("bool");
    reveal_strlit("uint8");
    reveal_strlit("uint32");
    reveal_strlit("bytes");
    assert("string"@[0] == 's' && "uint32"@[0] == 'u' && "uint8"@[0] == 'u' && "bytes"@[0] == 'b');
    assert("string"@.len() == 6 && "bool"@.len() == 4 && "uint8"@.len() == 5 && "uint32"@.len() == 6
        && "bytes"@.len() == 5);
}

} // verus!
