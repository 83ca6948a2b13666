//! Firmware: who it is, what files it has, and what a manifest says of it.

use crate::banks::Bank;
use crate::logs::entry::{copy_text, text_option};
use vstd::prelude::*;

verus! {

/// The software identity of a firmware.
#[derive(Debug, Clone)]
pub struct FirmwareIdentity {
    pub name: Option<String>,
    pub version: Option<String>,
    pub ecu_sw_number: Option<String>,
    pub supplier_sw_number: Option<String>,
    pub supplier_sw_version: Option<String>,
    pub spare_part_number: Option<String>,
    pub odx_file_id: Option<String>,
    pub system_name: Option<String>,
    pub programming_date: Option<String>,
    pub tester_serial: Option<String>,
}

impl FirmwareIdentity {
    /// An identity of which nothing is known.
    pub open spec fn blank(self) -> bool {
        &&& self.name is None
        &&& self.version is None
        &&& self.ecu_sw_number is None
        &&& self.supplier_sw_number is None
        &&& self.supplier_sw_version is None
        &&& self.spare_part_number is None
        &&& self.odx_file_id is None
        &&& self.system_name is None
        &&& self.programming_date is None
        &&& self.tester_serial is None
    }

    /// A copy.
    pub fn copy(&self) -> (r: FirmwareIdentity)
        ensures
            r == *self,
    {
        FirmwareIdentity {
            name: copy_text(&self.name),
            version: copy_text(&self.version),
            ecu_sw_number: copy_text(&self.ecu_sw_number),
            supplier_sw_number: copy_text(&self.supplier_sw_number),
            supplier_sw_version: copy_text(&self.supplier_sw_version),
            spare_part_number: copy_text(&self.spare_part_number),
            odx_file_id: copy_text(&self.odx_file_id),
            system_name: copy_text(&self.system_name),
            programming_date: copy_text(&self.programming_date),
            tester_serial: copy_text(&self.tester_serial),
        }
    }
}

impl Default for FirmwareIdentity {
    /// An identity of which nothing is known.
    fn default() -> (r: FirmwareIdentity)
        ensures
            r.blank(),
    {
        FirmwareIdentity {
            name: None,
            version: None,
            ecu_sw_number: None,
            supplier_sw_number: None,
            supplier_sw_version: None,
            spare_part_number: None,
            odx_file_id: None,
            system_name: None,
            programming_date: None,
            tester_serial: None,
        }
    }
}

/// The identity as the signed manifest of a bank writes it: an absent field is an
/// empty text.
#[derive(Debug, Clone)]
pub struct IvdIdentity {
    pub name: String,
    pub version: String,
    pub ecu_sw_number: String,
    pub supplier_sw_number: String,
    pub supplier_sw_version: String,
    pub spare_part_number: String,
    pub odx_file_id: String,
    pub system_name: String,
    pub programming_date: String,
    pub tester_serial: String,
}

/// A text that may be absent, from one that may be empty.
pub open spec fn present(s: Seq<char>) -> Option<Seq<char>> {
    if s.len() == 0 {
        None
    } else {
        Some(s)
    }
}

/// A text that may be empty, from one that may be absent.
pub open spec fn or_empty(s: Option<Seq<char>>) -> Seq<char> {
    match s {
        Some(t) => t,
        None => Seq::empty(),
    }
}

fn field_in(s: &String) -> (r: Option<String>)
    ensures
        text_option(r) == present(s@),
{
    if s.as_str().is_empty() {
        None
    } else {
        Some(s.clone())
    }
}

fn field_out(s: &Option<String>) -> (r: String)
    ensures
        r@ == or_empty(text_option(*s)),
{
    match s {
        Some(t) => t.clone(),
        None => String::new(),
    }
}

/// The fields of an identity say what those of a manifest's identity say.
pub open spec fn identity_says(id: FirmwareIdentity, ivd: IvdIdentity) -> bool {
    &&& text_option(id.name) == present(ivd.name@)
    &&& text_option(id.version) == present(ivd.version@)
    &&& text_option(id.ecu_sw_number) == present(ivd.ecu_sw_number@)
    &&& text_option(id.supplier_sw_number) == present(ivd.supplier_sw_number@)
    &&& text_option(id.supplier_sw_version) == present(ivd.supplier_sw_version@)
    &&& text_option(id.spare_part_number) == present(ivd.spare_part_number@)
    &&& text_option(id.odx_file_id) == present(ivd.odx_file_id@)
    &&& text_option(id.system_name) == present(ivd.system_name@)
    &&& text_option(id.programming_date) == present(ivd.programming_date@)
    &&& text_option(id.tester_serial) == present(ivd.tester_serial@)
}

/// A manifest's identity writes an identity down.
pub open spec fn identity_written(id: FirmwareIdentity, ivd: IvdIdentity) -> bool {
    &&& ivd.name@ == or_empty(text_option(id.name))
    &&& ivd.version@ == or_empty(text_option(id.version))
    &&& ivd.ecu_sw_number@ == or_empty(text_option(id.ecu_sw_number))
    &&& ivd.supplier_sw_number@ == or_empty(text_option(id.supplier_sw_number))
    &&& ivd.supplier_sw_version@ == or_empty(text_option(id.supplier_sw_version))
    &&& ivd.spare_part_number@ == or_empty(text_option(id.spare_part_number))
    &&& ivd.odx_file_id@ == or_empty(text_option(id.odx_file_id))
    &&& ivd.system_name@ == or_empty(text_option(id.system_name))
    &&& ivd.programming_date@ == or_empty(text_option(id.programming_date))
    &&& ivd.tester_serial@ == or_empty(text_option(id.tester_serial))
}

/// The identity that a manifest's identity writes down.
pub fn ivd_identity_to_firmware(ivd: &IvdIdentity) -> (r: FirmwareIdentity)
    ensures
        identity_says(r, *ivd),
{
    FirmwareIdentity {
        name: field_in(&ivd.name),
        version: field_in(&ivd.version),
        ecu_sw_number: field_in(&ivd.ecu_sw_number),
        supplier_sw_number: field_in(&ivd.supplier_sw_number),
        supplier_sw_version: field_in(&ivd.supplier_sw_version),
        spare_part_number: field_in(&ivd.spare_part_number),
        odx_file_id: field_in(&ivd.odx_file_id),
        system_name: field_in(&ivd.system_name),
        programming_date: field_in(&ivd.programming_date),
        tester_serial: field_in(&ivd.tester_serial),
    }
}

/// An identity as a manifest writes it down.
pub fn firmware_to_ivd_identity(id: &FirmwareIdentity) -> (r: IvdIdentity)
    ensures
        identity_written(*id, r),
{
    IvdIdentity {
        name: field_out(&id.name),
        version: field_out(&id.version),
        ecu_sw_number: field_out(&id.ecu_sw_number),
        supplier_sw_number: field_out(&id.supplier_sw_number),
        supplier_sw_version: field_out(&id.supplier_sw_version),
        spare_part_number: field_out(&id.spare_part_number),
        odx_file_id: field_out(&id.odx_file_id),
        system_name: field_out(&id.system_name),
        programming_date: field_out(&id.programming_date),
        tester_serial: field_out(&id.tester_serial),
    }
}

/// Two identities give the same fields, where an empty text counts as absent.
pub open spec fn same_identity(a: FirmwareIdentity, b: FirmwareIdentity) -> bool {
    &&& or_empty(text_option(a.name)) == or_empty(text_option(b.name))
    &&& or_empty(text_option(a.version)) == or_empty(text_option(b.version))
    &&& or_empty(text_option(a.ecu_sw_number)) == or_empty(text_option(b.ecu_sw_number))
    &&& or_empty(text_option(a.supplier_sw_number)) == or_empty(text_option(b.supplier_sw_number))
    &&& or_empty(text_option(a.supplier_sw_version)) == or_empty(
        text_option(b.supplier_sw_version),
    )
    &&& or_empty(text_option(a.spare_part_number)) == or_empty(text_option(b.spare_part_number))
    &&& or_empty(text_option(a.odx_file_id)) == or_empty(text_option(b.odx_file_id))
    &&& or_empty(text_option(a.system_name)) == or_empty(text_option(b.system_name))
    &&& or_empty(text_option(a.programming_date)) == or_empty(text_option(b.programming_date))
    &&& or_empty(text_option(a.tester_serial)) == or_empty(text_option(b.tester_serial))
}

/// An identity that is sealed into a bank's manifest and read back says the same.
pub proof fn law_identity_survives_the_manifest(
    sealed: FirmwareIdentity,
    written: IvdIdentity,
    read: FirmwareIdentity,
)
    requires
        identity_written(sealed, written),
        identity_says(read, written),
    ensures
        same_identity(sealed, read),
{
    lemma_present_or_empty(or_empty(text_option(sealed.name)));
    lemma_present_or_empty(or_empty(text_option(sealed.version)));
    lemma_present_or_empty(or_empty(text_option(sealed.ecu_sw_number)));
    lemma_present_or_empty(or_empty(text_option(sealed.supplier_sw_number)));
    lemma_present_or_empty(or_empty(text_option(sealed.supplier_sw_version)));
    lemma_present_or_empty(or_empty(text_option(sealed.spare_part_number)));
    lemma_present_or_empty(or_empty(text_option(sealed.odx_file_id)));
    lemma_present_or_empty(or_empty(text_option(sealed.system_name)));
    lemma_present_or_empty(or_empty(text_option(sealed.programming_date)));
    lemma_present_or_empty(or_empty(text_option(sealed.tester_serial)));
}

proof fn lemma_present_or_empty(s: Seq<char>)
    ensures
        or_empty(present(s)) == s,
{
    if s.len() == 0 {
        assert(s =~= Seq::empty());
    }
}

/// What an install records of an image: its identity and its security version.
#[derive(Debug, Clone)]
pub struct ImageMeta {
    pub identity: FirmwareIdentity,
    pub fw_secver: u32,
}

impl ImageMeta {
    /// A copy.
    pub fn copy(&self) -> (r: ImageMeta)
        ensures
            r == *self,
    {
        ImageMeta { identity: self.identity.copy(), fw_secver: self.fw_secver }
    }
}

impl Default for ImageMeta {
    /// An image of which nothing is known.
    fn default() -> (r: ImageMeta)
        ensures
            r.identity.blank(),
            r.fw_secver == 0,
    {
        ImageMeta { identity: FirmwareIdentity::default(), fw_secver: 0 }
    }
}

/// One file of a bank: its name, its digest and its size.
#[derive(Debug, Clone)]
pub struct IvdFile {
    pub relative_path: String,
    pub sha256: Vec<u8>,
    pub size: u64,
}

/// What the inventory says of a file.
pub struct FileView {
    pub path: Seq<char>,
    pub sha256: Seq<u8>,
    pub size: u64,
}

impl View for IvdFile {
    type V = FileView;

    open spec fn view(&self) -> FileView {
        FileView { path: self.relative_path@, sha256: self.sha256@, size: self.size }
    }
}

/// What an inventory says.
pub open spec fn files_view(files: Seq<IvdFile>) -> Seq<FileView> {
    files.map_values(|f: IvdFile| f@)
}

/// A copy of an inventory.
pub fn copy_files(files: &Vec<IvdFile>) -> (r: Vec<IvdFile>)
    ensures
        files_view(r@) == files_view(files@),
{
    let mut r: Vec<IvdFile> = Vec::new();
    let mut i: usize = 0;
    while i < files.len()
        invariant
            i <= files@.len(),
            r@.len() == i,
            forall|j: int| 0 <= j < i ==> (#[trigger] r@[j])@ == files@[j]@,
        decreases files@.len() - i,
    {
        let f = &files[i];
        r.push(
            IvdFile {
                relative_path: f.relative_path.clone(),
                sha256: copy_bytes(&f.sha256),
                size: f.size,
            },
        );
        i += 1;
    }
    assert(files_view(r@) =~= files_view(files@));
    r
}

/// A copy of a byte string.
pub fn copy_bytes(bytes: &Vec<u8>) -> (r: Vec<u8>)
    ensures
        r@ == bytes@,
{
    vstd::slice::slice_to_vec(bytes.as_slice())
}

/// A file of an installed firmware.
#[derive(Debug, Clone)]
pub struct InstalledFile {
    pub name: String,
    pub sha256: [u8; 32],
}

/// The firmware that a bank's signed manifest says is installed.
#[derive(Debug, Clone)]
pub struct InstalledFirmware {
    pub bank: Bank,
    pub gen: u64,
    pub files: Vec<InstalledFile>,
    pub identity: FirmwareIdentity,
    /// The signature over the manifest.
    pub signature: Option<Vec<u8>>,
    /// The signed manifest itself.
    pub raw: Option<Vec<u8>>,
    /// The version of the manifest's format, as the manifest says.
    pub ivd_version: u64,
    /// When the manifest was signed, in seconds since the start of 1970.
    pub signed_at_unix: u64,
}

/// One component that a manifest addresses.
#[derive(Debug, Clone)]
pub struct SuitComponent {
    /// The segments of the component's id; absent where it has none.
    pub id: Option<Vec<Vec<u8>>>,
    /// The digest of the component's image.
    pub digest: Option<Vec<u8>>,
    /// Where the component's payload is found.
    pub uri: Option<String>,
}

/// What an update manifest says.
#[derive(Debug, Clone)]
pub struct SuitManifest {
    pub components: Vec<SuitComponent>,
    pub model_name: Option<String>,
    pub vendor_name: Option<String>,
    pub version: Option<String>,
    pub description: Option<String>,
    /// The envelope carries payloads along with the manifest.
    pub integrated: bool,
}

/// Every field of an identity is written down in its own place, as it is where it is
/// known and empty where it is not; and is read back from there, as unknown where it is
/// empty.
pub proof fn law_identity_fields_keep_their_places(
    id: FirmwareIdentity,
    written: IvdIdentity,
    read: FirmwareIdentity,
)
    requires
        identity_written(id, written),
        identity_says(read, written),
    ensures
        id.name matches Some(t) ==> written.name@ == t@,
        id.version matches Some(t) ==> written.version@ == t@,
        id.ecu_sw_number matches Some(t) ==> written.ecu_sw_number@ == t@,
        id.supplier_sw_number matches Some(t) ==> written.supplier_sw_number@ == t@,
        id.supplier_sw_version matches Some(t) ==> written.supplier_sw_version@ == t@,
        id.spare_part_number matches Some(t) ==> written.spare_part_number@ == t@,
        id.odx_file_id matches Some(t) ==> written.odx_file_id@ == t@,
        id.system_name matches Some(t) ==> written.system_name@ == t@,
        id.programming_date matches Some(t) ==> written.programming_date@ == t@,
        id.tester_serial matches Some(t) ==> written.tester_serial@ == t@,
        id.name is None ==> written.name@.len() == 0,
        id.version is None ==> written.version@.len() == 0,
        read.name is Some <==> written.name@.len() > 0,
        read.version is Some <==> written.version@.len() > 0,
        read.ecu_sw_number is Some <==> written.ecu_sw_number@.len() > 0,
        read.supplier_sw_number is Some <==> written.supplier_sw_number@.len() > 0,
        read.supplier_sw_version is Some <==> written.supplier_sw_version@.len() > 0,
        read.spare_part_number is Some <==> written.spare_part_number@.len() > 0,
        read.odx_file_id is Some <==> written.odx_file_id@.len() > 0,
        read.system_name is Some <==> written.system_name@.len() > 0,
        read.programming_date is Some <==> written.programming_date@.len() > 0,
        read.tester_serial is Some <==> written.tester_serial@.len() > 0,
        read.version matches Some(t) ==> t@ == written.version@,
        read.name matches Some(t) ==> t@ == written.name@,
{
}

/// Of a blank identity nothing is known, and it is written down as ten empty texts.
pub proof fn law_a_blank_identity_is_empty(id: FirmwareIdentity, written: IvdIdentity)
    requires
        identity_written(id, written),
    ensures
        id.blank() ==> written.name@.len() == 0 && written.version@.len() == 0
            && written.ecu_sw_number@.len() == 0 && written.supplier_sw_number@.len() == 0
            && written.supplier_sw_version@.len() == 0 && written.spare_part_number@.len() == 0
            && written.odx_file_id@.len() == 0 && written.system_name@.len() == 0
            && written.programming_date@.len() == 0 && written.tester_serial@.len() == 0,
{
}

} // verus!
