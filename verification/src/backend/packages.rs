//! Packages, and parts that were uploaded on their own.

use crate::backend::book::{
    given_out, law_next_id_is_fresh, BookView, PackageStatus, PartView, StoredPackage,
    UploadedPartLocation,
};
use crate::backend::describe::{described, extract_describe_meta};
use crate::backend::setup::ComponentBackend;
use crate::backend::upload::{component_digest, component_file, digest_of, file_of, PayloadPlan};
use crate::banks::{Bank, NvView};
use crate::error::{refused, BackendError, BackendFault};
use crate::firmware::{FirmwareIdentity, SuitManifest};
use crate::hashing::{promise_broken, promise_broken_text, FileHash};
use crate::manifest_provider::{ManifestError, ValidatedFirmware};
use crate::outside::{hex_of, hex_text, sha256, sha256_of};
use crate::text::{
    cat2, cat3, cat4, cat5, decimal, decimal_text, same_but_case, same_ignoring_case, same_text,
};
use vstd::prelude::*;

verus! {

/// What is said of a package.
#[derive(Debug, Clone)]
pub struct PackageInfo {
    pub id: String,
    pub size: usize,
    pub target_ecu: Option<String>,
    pub version: Option<String>,
    pub status: PackageStatus,
}

/// What is said of a package is what it is.
pub open spec fn info_of(i: PackageInfo, id: Seq<char>, p: StoredPackage, component: Seq<char>) -> bool {
    &&& i.id@ == id
    &&& i.size == p.validated.image_data@.len()
    &&& i.target_ecu matches Some(t)
    &&& t@ == component
    &&& i.version matches Some(v)
    &&& v@ == p.validated.version_display@
    &&& i.status == p.status
}

/// The digest of a package.
#[derive(Debug, Clone)]
pub struct VerifyResult {
    pub valid: bool,
    pub checksum: Option<String>,
    pub algorithm: Option<String>,
    pub error: Option<String>,
}

/// How a part is verified.
#[derive(Debug, Clone)]
pub enum PartCheck {
    /// It is good.
    Good,
    /// It is to be read back from its bank and compared with the digest that it
    /// was written with.
    ReadBack { bank: Bank, name: String, inner_sha256: [u8; 32] },
}

/// How the provider of banks fails to verify a payload.
#[derive(Debug, Clone)]
pub enum PayloadFault {
    /// The payload is not what was written.
    Unverifiable(String),
    /// The payload could not be read.
    Other(String),
}

/// A place for a payload that is uploaded on its own.
#[derive(Debug, Clone)]
pub struct UploadSlot {
    pub id: String,
    /// The directory that it goes to.
    pub dir: String,
    /// The name of its file there.
    pub file_name: String,
}

/// What is to be sealed into a bank.
#[derive(Debug, Clone)]
pub struct SealRequest {
    pub identity: FirmwareIdentity,
    pub gen: u64,
}

/// What is to be done next in an update out of parts that were uploaded on their
/// own.
#[derive(Debug, Clone)]
pub enum MultiAction {
    /// A payload is to be unpacked from where it lies into its bank.
    Process { plan: PayloadPlan, path: String },
    /// Everything was unpacked; the update has an id.
    Finished(String),
}

/// The first component of a manifest before `n` that has the address.
pub open spec fn component_with_uri(m: SuitManifest, uri: Seq<char>, from: nat) -> Option<nat>
    decreases m.components@.len() - from,
{
    if from >= m.components@.len() {
        None
    } else {
        match m.components@[from as int].uri {
            Some(u) => if u@ == uri {
                Some(from)
            } else {
                component_with_uri(m, uri, from + 1)
            },
            None => component_with_uri(m, uri, from + 1),
        }
    }
}

fn find_uri(m: &SuitManifest, uri: &str) -> (r: Option<usize>)
    ensures
        match r {
            Some(i) => i < m.components@.len() && component_with_uri(*m, uri@, 0) == Some(i as nat),
            None => component_with_uri(*m, uri@, 0) is None,
        },
{
    let mut i: usize = 0;
    while i < m.components.len()
        invariant
            i <= m.components@.len(),
            component_with_uri(*m, uri@, 0) == component_with_uri(*m, uri@, i as nat),
        decreases m.components@.len() - i,
    {
        if let Some(u) = &m.components[i].uri {
            if same_text(u.as_str(), uri) {
                return Some(i);
            }
        }
        i += 1;
    }
    None
}

/// Why a payload cannot be unpacked, or what is to be done with it.
pub open spec fn multi_step_is(
    book: BookView,
    m: SuitManifest,
    uri: Seq<char>,
    payload: Seq<char>,
    target: Bank,
    r: Result<MultiAction, BackendError>,
) -> bool {
    if !book.payloads.contains_key(payload) {
        refused(r, BackendFault::InvalidRequest("payload "@ + payload + " not found"@))
    } else {
        match component_with_uri(m, uri, 0) {
            None => refused(
                r,
                BackendFault::InvalidRequest("no component with uri="@ + uri + " in manifest"@),
            ),
            Some(i) => match digest_of(m, i) {
                None => refused(
                    r,
                    BackendFault::Internal("no digest for component "@ + decimal_text(i)),
                ),
                Some(d) => match r {
                    Ok(MultiAction::Process { plan, path }) => {
                        &&& plan.component == i
                        &&& plan.total == m.components@.len()
                        &&& plan.bank == target
                        &&& plan.name@ == file_of(m, i)
                        &&& plan.digest@ == d
                        &&& path@ == book.payloads[payload]
                    },
                    _ => false,
                },
            },
        }
    }
}

/// What unpacking an uploaded payload comes to: it is good only if it has the digest
/// that the manifest gives.
pub fn payload_processed(uri: &str, plan: &PayloadPlan, outcome: Result<FileHash, String>) -> (r:
    Result<(), BackendError>)
    ensures
        payload_judged(uri@, *plan, outcome, r),
{
    let why = match outcome {
        Err(why) => why,
        Ok(read) => match read.finish_as(plan.digest.as_slice()) {
            Ok(_) => {
                return Ok(());
            },
            Err(actual) => promise_broken_text(
                plan.name.as_str(),
                &actual,
                plan.digest.as_slice(),
            ),
        },
    };
    Err(BackendError::Internal(cat4("payload processing (", uri, "): ", why.as_str())))
}

/// What a part that was read back comes to.
pub fn part_read_back(file_id: &str, outcome: Result<(), PayloadFault>) -> (r: Result<
    (),
    BackendError,
>)
    ensures
        part_answered(file_id@, outcome, r),
{
    match outcome {
        Ok(_) => Ok(()),
        Err(PayloadFault::Unverifiable(why)) => Err(
            BackendError::InvalidRequest(cat4("verify_part ", file_id, ": ", why.as_str())),
        ),
        Err(PayloadFault::Other(why)) => Err(
            BackendError::Internal(cat4("verify_part ", file_id, ": ", why.as_str())),
        ),
    }
}

/// The refusal of a manifest that does not match the digest it was uploaded with.
pub open spec fn part_mismatch(file: Seq<char>, stored: Seq<char>, expected: Seq<char>) -> Seq<char> {
    ("verify_part "@ + file + ": outer sha256 mismatch — stored "@ + stored + ", expected "@)
        + expected
}

/// A manifest that was not taken: what that is answered with and, where it was the
/// manifest that was found wanting, why.
#[derive(Debug)]
pub struct Unaccepted {
    pub answer: BackendError,
    pub why: Option<ManifestError>,
}

/// A refusal, and the time that the floor of the clock is to be raised to all the
/// same.
#[derive(Debug)]
pub struct Refusal {
    pub answer: BackendError,
    pub raise_time: Option<u64>,
}

/// A request was refused for a reason, and the floor of the clock is to be raised to
/// a time, or is not.
pub open spec fn turned_down<T>(
    r: Result<T, Refusal>,
    why: BackendFault,
    raise_time: Option<u64>,
) -> bool {
    match r {
        Ok(_) => false,
        Err(no) => no.answer@ == why && no.raise_time == raise_time,
    }
}

/// A request was answered with a text.
pub open spec fn taken_as(r: Result<String, Refusal>, id: Seq<char>) -> bool {
    match r {
        Ok(s) => s@ == id,
        Err(_) => false,
    }
}

/// What unpacking an uploaded payload came to.
pub open spec fn payload_judged(
    uri: Seq<char>,
    plan: PayloadPlan,
    outcome: Result<FileHash, String>,
    r: Result<(), BackendError>,
) -> bool {
    match outcome {
        Err(why) => refused(
            r,
            BackendFault::Internal("payload processing ("@ + uri + "): "@ + why@),
        ),
        Ok(read) => if sha256(read.bytes()) == plan.digest@ {
            r is Ok
        } else {
            refused(
                r,
                BackendFault::Internal(
                    "payload processing ("@ + uri + "): "@ + promise_broken(
                        plan.name@,
                        sha256(read.bytes()),
                        plan.digest@,
                    ),
                ),
            )
        },
    }
}

/// What a part that was read back came to.
pub open spec fn part_answered(
    file_id: Seq<char>,
    outcome: Result<(), PayloadFault>,
    r: Result<(), BackendError>,
) -> bool {
    match outcome {
        Ok(_) => r is Ok,
        Err(PayloadFault::Unverifiable(why)) => refused(
            r,
            BackendFault::InvalidRequest("verify_part "@ + file_id + ": "@ + why@),
        ),
        Err(PayloadFault::Other(why)) => refused(
            r,
            BackendFault::Internal("verify_part "@ + file_id + ": "@ + why@),
        ),
    }
}

/// What came of a package that came in one piece.
pub open spec fn package_received(
    before: ComponentBackend,
    after: BookView,
    validated: Result<ValidatedFirmware, ManifestError>,
    decoded: Option<SuitManifest>,
    r: Result<String, Refusal>,
) -> bool {
    let book = before.book@;
    match validated {
        Err(no) => after == book && turned_down(
            r,
            BackendFault::InvalidRequest("manifest validation: "@ + no.message()),
            before.trusted_time(no),
        ),
        Ok(v) => if v.bank_set != before.setup.bank_set {
            after == book && turned_down(
                r,
                BackendFault::InvalidRequest(
                    "manifest targets "@ + v.bank_set.label() + ", but this is "@
                        + before.setup.bank_set.label(),
                ),
                None,
            )
        } else {
            taken_as(r, book.fresh_id()) && after == (BookView {
                packages: book.packages.insert(
                    book.fresh_id(),
                    StoredPackage { validated: v, status: PackageStatus::Verified },
                ),
                describe: match decoded {
                    Some(m) => book.describe.insert(
                        book.fresh_id(),
                        described(m, v.version_display@),
                    ),
                    None => book.describe,
                },
                ..book.id_taken()
            })
        },
    }
}

/// What came of a manifest that was uploaded on its own.
pub open spec fn manifest_received(
    before: ComponentBackend,
    after: BookView,
    data: Seq<u8>,
    validated: Result<(), Unaccepted>,
    r: Result<String, Refusal>,
) -> bool {
    let book = before.book@;
    match validated {
        Err(no) => turned_down(r, no.answer@, before.time_told(no.why)) && after == book,
        Ok(_) => taken_as(r, book.fresh_id()) && after == (BookView {
            manifests: book.manifests.insert(book.fresh_id(), data),
            ..book.id_taken()
        }),
    }
}

/// The text behind a reference.
pub open spec fn text_ref(s: Option<&str>) -> Option<Seq<char>> {
    match s {
        Some(x) => Some(x@),
        None => None,
    }
}

/// What asking for a place for a payload gave.
pub open spec fn slot_given(
    before: ComponentBackend,
    after: BookView,
    filename: Option<Seq<char>>,
    r: Result<UploadSlot, BackendError>,
) -> bool {
    &&& after == before.book@.id_taken()
    &&& match before.setup.images_dir {
        None => refused(r, BackendFault::Internal("no images_dir configured"@)),
        Some(dir) => match r {
            Ok(slot) => {
                &&& slot.id@ == before.book@.fresh_id()
                &&& slot.dir@ == dir@
                &&& slot.file_name@ == "upload-"@ + slot.id@ + "-"@ + (match filename {
                    Some(f) => f,
                    None => "payload"@,
                })
                &&& given_out(slot.id@, after.next_id)
            },
            Err(_) => false,
        },
    }
}

/// What the next step of an update out of parts came to.
pub open spec fn multi_stepped(
    before: BookView,
    after: BookView,
    manifest_id: Seq<char>,
    decoded: Result<SuitManifest, String>,
    payload_ids: Seq<(String, String)>,
    done: nat,
    target: Bank,
    r: Result<MultiAction, BackendError>,
) -> bool {
    &&& !(r matches Ok(MultiAction::Finished(_))) ==> after == before
    &&& if !before.manifests.contains_key(manifest_id) {
        refused(r, BackendFault::InvalidRequest("manifest "@ + manifest_id + " not found"@))
    } else {
        match decoded {
            Err(why) => refused(r, BackendFault::Internal("decode manifest: "@ + why@)),
            Ok(m) => if done == payload_ids.len() {
                match r {
                    Ok(MultiAction::Finished(id)) => id@ == before.fresh_id() && after
                        == before.id_taken(),
                    _ => false,
                }
            } else {
                multi_step_is(
                    before,
                    m,
                    payload_ids[done as int].0@,
                    payload_ids[done as int].1@,
                    target,
                    r,
                )
            },
        }
    }
}

/// What asking for a package gave.
pub open spec fn package_shown(
    b: ComponentBackend,
    id: Seq<char>,
    r: Result<PackageInfo, BackendError>,
) -> bool {
    match r {
        Ok(i) => b.book@.packages.contains_key(id) && info_of(
            i,
            id,
            b.book@.packages[id],
            b.setup.id(),
        ),
        Err(e) => !b.book@.packages.contains_key(id) && e@ == BackendFault::EntityNotFound(id),
    }
}

/// What verifying a package gave.
pub open spec fn package_verified(
    book: BookView,
    id: Seq<char>,
    r: Result<VerifyResult, BackendError>,
) -> bool {
    match r {
        Ok(v) => {
            &&& book.packages.contains_key(id)
            &&& v.valid
            &&& v.checksum matches Some(c)
            &&& c@ == hex_text(sha256(book.packages[id].validated.image_data@))
            &&& v.algorithm matches Some(a)
            &&& a@ == "sha256"@
            &&& v.error is None
        },
        Err(e) => !book.packages.contains_key(id) && e@ == BackendFault::EntityNotFound(id),
    }
}

/// What forgetting a package came to.
pub open spec fn package_deleted(
    before: BookView,
    after: BookView,
    id: Seq<char>,
    r: Result<(), BackendError>,
) -> bool {
    &&& after == (BookView { packages: before.packages.remove(id), ..before })
    &&& match r {
        Ok(_) => before.packages.contains_key(id),
        Err(e) => !before.packages.contains_key(id) && e@ == BackendFault::EntityNotFound(id),
    }
}

/// How an uploaded part is verified.
pub open spec fn part_judged(
    book: BookView,
    file_id: Seq<char>,
    expected_sha256: Seq<char>,
    r: Result<PartCheck, BackendError>,
) -> bool {
    if !book.parts.contains_key(file_id) {
        refused(r, BackendFault::EntityNotFound("no uploaded part with file_id "@ + file_id))
    } else {
        match book.parts[file_id] {
            PartView::Manifest { upload_sha256 } => if same_but_case(
                hex_text(upload_sha256),
                expected_sha256,
            ) {
                r matches Ok(PartCheck::Good)
            } else {
                refused(
                    r,
                    BackendFault::InvalidRequest(
                        part_mismatch(file_id, hex_text(upload_sha256), expected_sha256),
                    ),
                )
            },
            PartView::OnDisk { bank, name, inner_sha256 } => match r {
                Ok(PartCheck::ReadBack { bank: b, name: n, inner_sha256: s }) => b == bank && n@
                    == name && s@ == inner_sha256,
                _ => false,
            },
        }
    }
}

/// What is to be sealed into the target bank.
pub open spec fn seal_asked(
    b: ComponentBackend,
    nv: NvView,
    r: Result<SealRequest, BackendError>,
) -> bool {
    match b.install_gen(nv) {
        None => refused(r, BackendFault::Internal("ivd sign: NV boot state missing"@)),
        Some(g) => match r {
            Ok(s) => s.gen == g && match b.package_in_scope() {
                Some(p) => s.identity == p.validated.image_meta.identity,
                None => s.identity.blank(),
            },
            Err(_) => false,
        },
    }
}

/// A payload is kept under its id.
pub open spec fn payload_kept(
    before: BookView,
    after: BookView,
    id: Seq<char>,
    path: Seq<char>,
) -> bool {
    after == (BookView { payloads: before.payloads.insert(id, path), ..before })
}

/// The answer with a manifest that was uploaded on its own.
pub open spec fn manifest_found(
    book: BookView,
    id: Seq<char>,
    r: Result<&Vec<u8>, BackendError>,
) -> bool {
    match r {
        Ok(bytes) => book.manifests.contains_key(id) && book.manifests[id] == bytes@,
        Err(e) => !book.manifests.contains_key(id) && e@ == BackendFault::InvalidRequest(
            "manifest "@ + id + " not found"@,
        ),
    }
}

impl ComponentBackend {
    /// Takes a package that came in one piece. `validated` is what judging it
    /// gave, `decoded` what its manifest says, where it could be read. A package that
    /// is refused may still raise the floor of the clock.
    pub fn receive_package(
        &mut self,
        validated: Result<ValidatedFirmware, ManifestError>,
        decoded: Option<SuitManifest>,
    ) -> (r: Result<String, Refusal>)
        requires
            old(self).wf(),
            old(self).book.next_id < u64::MAX,
        ensures
            final(self).wf(),
            final(self).same_but_book(*old(self)),
            package_received(*old(self), final(self).book@, validated, decoded, r),
    {
        let v = match validated {
            Ok(v) => v,
            Err(no) => {
                let why = no.to_text();
                let answer = BackendError::InvalidRequest(
                    cat2("manifest validation: ", why.as_str()),
                );
                return Err(self.refusal_of(Unaccepted { answer, why: Some(no) }));
            },
        };
        if v.bank_set != self.setup.bank_set {
            let answer = BackendError::InvalidRequest(
                cat4(
                    "manifest targets ",
                    v.bank_set.as_label(),
                    ", but this is ",
                    self.setup.bank_set.as_label(),
                ),
            );
            return Err(Refusal { answer, raise_time: None });
        }
        proof {
            law_next_id_is_fresh(self.book@.next_id);
        }
        let id = self.book.take_id();
        if let Some(m) = &decoded {
            let meta = extract_describe_meta(m, v.version_display.as_str());
            self.book.keep_describe(id.as_str(), meta);
        }
        self.book.keep_package(
            id.as_str(),
            StoredPackage { validated: v, status: PackageStatus::Verified },
        );
        Ok(id)
    }

    /// Takes a manifest that is uploaded on its own, once it was found good.
    pub fn receive_manifest(&mut self, data: Vec<u8>, validated: Result<(), Unaccepted>) -> (r: Result<
        String,
        Refusal,
    >)
        requires
            old(self).wf(),
            old(self).book.next_id < u64::MAX,
        ensures
            final(self).wf(),
            final(self).same_but_book(*old(self)),
            manifest_received(*old(self), final(self).book@, data@, validated, r),
    {
        if let Err(no) = validated {
            return Err(self.refusal_of(no));
        }
        proof {
            law_next_id_is_fresh(self.book@.next_id);
        }
        let id = self.book.take_id();
        self.book.keep_manifest(id.as_str(), data);
        Ok(id)
    }

    /// A place for a payload that is uploaded on its own. An id is used up even
    /// where there is no place.
    pub fn receive_payload_stream(&mut self, filename: Option<&str>) -> (r: Result<
        UploadSlot,
        BackendError,
    >)
        requires
            old(self).wf(),
            old(self).book.next_id < u64::MAX,
        ensures
            final(self).wf(),
            final(self).same_but_book(*old(self)),
            slot_given(*old(self), final(self).book@, text_ref(filename), r),
    {
        proof {
            law_next_id_is_fresh(self.book@.next_id);
        }
        let id = self.book.take_id();
        match &self.setup.images_dir {
            None => Err(BackendError::Internal("no images_dir configured".to_owned())),
            Some(dir) => {
                let name = match filename {
                    Some(f) => f,
                    None => "payload",
                };
                let file_name = cat4("upload-", id.as_str(), "-", name);
                Ok(UploadSlot { id, dir: dir.clone(), file_name })
            },
        }
    }

    /// Takes note that a payload was saved at its place.
    pub fn payload_saved(&mut self, slot: &UploadSlot, path: String)
        requires
            old(self).wf(),
            given_out(slot.id@, old(self).book@.next_id),
        ensures
            final(self).wf(),
            final(self).same_but_book(*old(self)),
            payload_kept(old(self).book@, final(self).book@, slot.id@, path@),
    {
        self.book.keep_payload(slot.id.as_str(), path);
    }

    /// The manifest that was uploaded on its own under an id.
    pub fn uploaded_manifest(&self, manifest_id: &str) -> (r: Result<&Vec<u8>, BackendError>)
        requires
            self.wf(),
        ensures
            manifest_found(self.book@, manifest_id@, r),
    {
        match self.book.manifests.get(manifest_id) {
            Some(bytes) => Ok(bytes),
            None => Err(
                BackendError::InvalidRequest(cat3("manifest ", manifest_id, " not found")),
            ),
        }
    }

    /// The next step of an update out of parts that were uploaded on their own.
    /// `payload_ids` pairs addresses with uploaded payloads, `done` of which have
    /// been unpacked; `decoded` is what the manifest says.
    pub fn start_flash_multi(
        &mut self,
        manifest_id: &str,
        decoded: &Result<SuitManifest, String>,
        payload_ids: &Vec<(String, String)>,
        done: usize,
        target: Bank,
    ) -> (r: Result<MultiAction, BackendError>)
        requires
            old(self).wf(),
            old(self).book.next_id < u64::MAX,
            done <= payload_ids@.len(),
        ensures
            final(self).wf(),
            final(self).same_but_book(*old(self)),
            multi_stepped(
                old(self).book@,
                final(self).book@,
                manifest_id@,
                *decoded,
                payload_ids@,
                done as nat,
                target,
                r,
            ),
    {
        if let Err(e) = self.uploaded_manifest(manifest_id) {
            return Err(e);
        }
        let m = match decoded {
            Ok(m) => m,
            Err(why) => {
                return Err(BackendError::Internal(cat2("decode manifest: ", why.as_str())));
            },
        };
        if done == payload_ids.len() {
            let id = self.book.take_id();
            return Ok(MultiAction::Finished(id));
        }
        let uri = payload_ids[done].0.as_str();
        let payload_id = payload_ids[done].1.as_str();
        let path = match self.book.payloads.get(payload_id) {
            Some(p) => p.clone(),
            None => {
                return Err(
                    BackendError::InvalidRequest(cat3("payload ", payload_id, " not found")),
                );
            },
        };
        let at: usize = match find_uri(m, uri) {
            Some(i) => i,
            None => {
                return Err(
                    BackendError::InvalidRequest(
                        cat3("no component with uri=", uri, " in manifest"),
                    ),
                );
            },
        };
        let digest = match component_digest(m, at) {
            Some(d) => d,
            None => {
                return Err(
                    BackendError::Internal(
                        cat2("no digest for component ", decimal(at as u64).as_str()),
                    ),
                );
            },
        };
        Ok(
            MultiAction::Process {
                plan: PayloadPlan {
                    component: at,
                    total: m.components.len(),
                    bank: target,
                    name: component_file(m, at),
                    digest,
                },
                path,
            },
        )
    }

    fn info(&self, id: &str, p: &StoredPackage) -> (r: PackageInfo)
        ensures
            info_of(r, id@, *p, self.setup.id()),
    {
        PackageInfo {
            id: id.to_owned(),
            size: p.validated.image_data.len(),
            target_ecu: Some(self.setup.entity_info.id.clone()),
            version: Some(p.validated.version_display.clone()),
            status: p.status,
        }
    }

    /// All packages, each once.
    pub fn list_packages(&self) -> (r: Vec<PackageInfo>)
        requires
            self.wf(),
        ensures
            r@.len() == self.book.packages.listed().len(),
            forall|i: int|
                0 <= i < r@.len() ==> info_of(
                    #[trigger] r@[i],
                    self.book.packages.listed()[i].0@,
                    self.book.packages.listed()[i].1,
                    self.setup.id(),
                ),
            forall|i: int|
                0 <= i < r@.len() ==> self.book@.packages.contains_key((#[trigger] r@[i]).id@),
            forall|id: Seq<char>| #[trigger]
                self.book@.packages.contains_key(id) ==> exists|i: int|
                    0 <= i < r@.len() && (#[trigger] r@[i]).id@ == id,
            forall|i: int, j: int|
                0 <= i < j < r@.len() ==> (#[trigger] r@[i]).id@ != (#[trigger] r@[j]).id@,
    {
        let mut r: Vec<PackageInfo> = Vec::new();
        let mut i: usize = 0;
        let n: usize = self.book.packages.len();
        while i < n
            invariant
                i <= n,
                n == self.book.packages.listed().len(),
                r@.len() == i,
                forall|j: int|
                    0 <= j < i ==> info_of(
                        #[trigger] r@[j],
                        self.book.packages.listed()[j].0@,
                        self.book.packages.listed()[j].1,
                        self.setup.id(),
                    ),
            decreases n - i,
        {
            let pair = self.book.packages.at(i);
            r.push(self.info(pair.0.as_str(), &pair.1));
            i += 1;
        }
        proof {
            let listed = self.book.packages.listed();
            assert forall|j: int| 0 <= j < r@.len() implies self.book@.packages.contains_key(
                (#[trigger] r@[j]).id@,
            ) by {
                self.book.packages.lemma_listed(r@[j].id@);
                assert(listed[j].0@ == r@[j].id@);
            }
            assert forall|id: Seq<char>| #[trigger]
                self.book@.packages.contains_key(id) implies exists|j: int|
                0 <= j < r@.len() && (#[trigger] r@[j]).id@ == id by {
                self.book.packages.lemma_listed(id);
                let j = choose|j: int| 0 <= j < listed.len() && (#[trigger] listed[j]).0@ == id;
                assert(r@[j].id@ == id);
            }
            self.book.packages.lemma_listed(Seq::empty());
            assert forall|j: int, k: int| 0 <= j < k < r@.len() implies (#[trigger] r@[j]).id@ != (
            #[trigger] r@[k]).id@ by {
                assert(listed[j].0@ != listed[k].0@);
            }
        }
        r
    }

    /// One package.
    pub fn get_package(&self, package_id: &str) -> (r: Result<PackageInfo, BackendError>)
        requires
            self.wf(),
        ensures
            package_shown(*self, package_id@, r),
    {
        match self.book.packages.get(package_id) {
            Some(p) => Ok(self.info(package_id, p)),
            None => Err(BackendError::EntityNotFound(package_id.to_owned())),
        }
    }

    /// The digest of a package's image.
    pub fn verify_package(&self, package_id: &str) -> (r: Result<VerifyResult, BackendError>)
        requires
            self.wf(),
        ensures
            package_verified(self.book@, package_id@, r),
    {
        match self.book.packages.get(package_id) {
            Some(p) => {
                let digest = sha256_of(p.validated.image_data.as_slice());
                Ok(
                    VerifyResult {
                        valid: true,
                        checksum: Some(hex_of(digest.as_slice())),
                        algorithm: Some("sha256".to_owned()),
                        error: None,
                    },
                )
            },
            None => Err(BackendError::EntityNotFound(package_id.to_owned())),
        }
    }

    /// Forgets a package.
    pub fn delete_package(&mut self, package_id: &str) -> (r: Result<(), BackendError>)
        requires
            old(self).wf(),
        ensures
            final(self).wf(),
            final(self).same_but_book(*old(self)),
            package_deleted(old(self).book@, final(self).book@, package_id@, r),
    {
        if self.book.packages.remove(package_id) {
            Ok(())
        } else {
            Err(BackendError::EntityNotFound(package_id.to_owned()))
        }
    }

    /// How an uploaded part is verified: a manifest by the digest that it was
    /// uploaded with, whatever the case of its digits; a payload by reading it
    /// back, whatever is expected of it.
    pub fn verify_part(&self, file_id: &str, expected_sha256: &str) -> (r: Result<
        PartCheck,
        BackendError,
    >)
        requires
            self.wf(),
        ensures
            part_judged(self.book@, file_id@, expected_sha256@, r),
    {
        match self.book.uploaded_parts.get(file_id) {
            None => Err(
                BackendError::EntityNotFound(cat2("no uploaded part with file_id ", file_id)),
            ),
            Some(UploadedPartLocation::Manifest { upload_sha256 }) => {
                let stored = hex_of(upload_sha256.as_slice());
                if same_ignoring_case(stored.as_str(), expected_sha256) {
                    Ok(PartCheck::Good)
                } else {
                    let front = cat5(
                        "verify_part ",
                        file_id,
                        ": outer sha256 mismatch — stored ",
                        stored.as_str(),
                        ", expected ",
                    );
                    Err(BackendError::InvalidRequest(cat2(front.as_str(), expected_sha256)))
                }
            },
            Some(UploadedPartLocation::OnDisk { bank, name, inner_sha256 }) => Ok(
                PartCheck::ReadBack {
                    bank: *bank,
                    name: name.clone(),
                    inner_sha256: *inner_sha256,
                },
            ),
        }
    }

    /// The firmware that the transfer is about, if there is any.
    pub open spec fn package_in_scope(self) -> Option<StoredPackage> {
        match self.book@.transfer {
            Some(t) => if t.package.len() > 0 && self.book@.packages.contains_key(t.package) {
                Some(self.book@.packages[t.package])
            } else {
                None
            },
            None => None,
        }
    }

    /// The package that the transfer is about, if there is any.
    pub fn current_package(&self) -> (r: Option<&StoredPackage>)
        requires
            self.wf(),
        ensures
            match r {
                Some(p) => self.package_in_scope() == Some(*p),
                None => self.package_in_scope() is None,
            },
    {
        match &self.book.transfer {
            Some(t) => {
                if t.package_id.as_str().is_empty() {
                    None
                } else {
                    self.book.packages.get(t.package_id.as_str())
                }
            },
            None => None,
        }
    }

    /// The generation that an install gets: one more than that of the bank that
    /// is known to be good, the active one once it is confirmed and the other one
    /// before that.
    pub open spec fn install_gen(self, nv: NvView) -> Option<int> {
        match nv.boot {
            Some(boot) => {
                let good = if boot.committed {
                    boot.active_bank
                } else {
                    boot.active_bank.sibling()
                };
                match nv.meta(good) {
                    Some(m) => Some(m.gen + 1),
                    None => Some(1),
                }
            },
            None => None,
        }
    }

    /// What is to be sealed into the target bank: the identity of the package in
    /// scope, blank where there is none, and the generation of the install.
    pub fn ivd_sign_staged_bank(&self, nv: &NvView) -> (r: Result<SealRequest, BackendError>)
        requires
            self.wf(),
            self.install_gen(*nv) matches Some(g) ==> g <= u64::MAX,
        ensures
            seal_asked(*self, *nv, r),
    {
        let boot = match nv.boot {
            Some(b) => b,
            None => {
                return Err(BackendError::Internal("ivd sign: NV boot state missing".to_owned()));
            },
        };
        let good = if boot.committed {
            boot.active_bank
        } else {
            boot.active_bank.other()
        };
        let gen: u64 = match nv.meta_of(good) {
            Some(m) => m.gen + 1,
            None => 1,
        };
        let identity = match self.current_package() {
            Some(p) => p.validated.image_meta.identity.copy(),
            None => FirmwareIdentity::default(),
        };
        Ok(SealRequest { identity, gen })
    }

    /// What the floor of the clock, which the security module keeps, is to be raised
    /// to on account of a signed time: the time itself, but nothing where there is
    /// no security module. The module never lowers the floor. What came of raising
    /// it is told to `floor_raised`.
    pub fn ratchet_time_floor(&self, iat: u64) -> (r: Option<u64>)
        ensures
            r == self.floor_asked(iat),
    {
        if self.setup.fittings.hsm {
            Some(iat)
        } else {
            None
        }
    }

    /// What the floor of the clock is to be raised to on account of a signed time.
    pub open spec fn floor_asked(self, iat: u64) -> Option<u64> {
        if self.setup.fittings.hsm {
            Some(iat)
        } else {
            None
        }
    }

    /// What the clock of the host is to be set forward to once the floor was
    /// raised: to the floor as it is then, where something sets the clock. A floor
    /// that could not be raised leaves the clock alone.
    pub fn floor_raised(&self, outcome: Result<u64, String>) -> (r: Option<u64>)
        ensures
            r == self.clock_asked(outcome),
    {
        match outcome {
            Ok(floor) => if self.setup.fittings.wall_clock {
                Some(floor)
            } else {
                None
            },
            Err(_) => None,
        }
    }

    /// What the clock of the host is to be set forward to once the floor was raised.
    pub open spec fn clock_asked(self, outcome: Result<u64, String>) -> Option<u64> {
        match outcome {
            Ok(floor) => if self.setup.fittings.wall_clock {
                Some(floor)
            } else {
                None
            },
            Err(_) => None,
        }
    }

    /// The floor of the clock after a signed time was seen, where the security
    /// module keeps the larger of the floor and what it is raised to.
    pub open spec fn floor_after(self, floor: u64, iat: u64) -> u64 {
        match self.floor_asked(iat) {
            Some(to) => if to > floor {
                to
            } else {
                floor
            },
            None => floor,
        }
    }

    /// The time that a manifest that was not taken raises the floor of the clock to.
    pub open spec fn time_told(self, why: Option<ManifestError>) -> Option<u64> {
        match why {
            Some(no) => self.trusted_time(no),
            None => None,
        }
    }

    /// What is to be done about a manifest that was not taken.
    pub fn refusal_of(&self, no: Unaccepted) -> (r: Refusal)
        ensures
            r.answer == no.answer,
            r.raise_time == self.time_told(no.why),
    {
        let raise_time = match &no.why {
            Some(why) => self.ratchet_time_floor_on_reject(why),
            None => None,
        };
        Refusal { answer: no.answer, raise_time }
    }

    /// Whether a refused manifest raises the floor of the clock all the same: one
    /// whose signature was good and that was refused for its age says a time that
    /// can be trusted; every other says none.
    pub fn ratchet_time_floor_on_reject(&self, no: &ManifestError) -> (r: Option<u64>)
        ensures
            r == self.trusted_time(*no),
    {
        match no {
            ManifestError::RollbackRejected { signing_time_secs, .. } => match signing_time_secs {
                Some(iat) => self.ratchet_time_floor(*iat),
                None => None,
            },
            _ => None,
        }
    }

    /// The time that a refused manifest raises the floor of the clock to.
    pub open spec fn trusted_time(self, no: ManifestError) -> Option<u64> {
        match no {
            ManifestError::RollbackRejected { signing_time_secs, .. } => if self.setup.fittings.hsm {
                signing_time_secs
            } else {
                None
            },
            _ => None,
        }
    }
}

/// The floor of the clock never falls, and it does not matter in which order two
/// signed times are seen: with a security module the floor ends up at the largest
/// of all three, and the clock is set to that and not to the time that was seen
/// last; without one nothing moves.
pub proof fn law_floor_is_the_latest_time(b: ComponentBackend, floor: u64, x: u64, y: u64)
    ensures
        b.floor_after(floor, x) >= floor,
        b.floor_after(b.floor_after(floor, x), y) == b.floor_after(b.floor_after(floor, y), x),
        b.setup.fittings.hsm ==> {
            let end = b.floor_after(b.floor_after(floor, x), y);
            &&& end >= floor && end >= x && end >= y
            &&& end == floor || end == x || end == y
        },
        !b.setup.fittings.hsm ==> b.floor_after(floor, x) == floor,
        b.setup.fittings.wall_clock ==> b.clock_asked(Ok(b.floor_after(floor, x))) == Some(
            b.floor_after(floor, x),
        ),
{
}

/// Only a manifest that was refused for its age moves the floor of the clock.
pub proof fn law_only_old_manifests_tell_the_time(b: ComponentBackend, no: ManifestError)
    requires
        b.trusted_time(no) is Some,
    ensures
        no is RollbackRejected,
        no->signing_time_secs == b.trusted_time(no),
{
}

/// The generation of an install is above that of the bank that is known to be
/// good, so that it supersedes it.
pub proof fn law_install_supersedes(b: ComponentBackend, nv: NvView)
    requires
        nv.boot is Some,
    ensures
        b.install_gen(nv) is Some,
        ({
            let boot = nv.boot->0;
            let good = if boot.committed {
                boot.active_bank
            } else {
                boot.active_bank.sibling()
            };
            nv.meta(good) is Some ==> b.install_gen(nv)->0 > nv.meta(good)->0.gen
        }),
{
}

/// A package is taken exactly where it was found good and is for this component. It is
/// then kept under an id that nothing had before, as it was judged; else nothing changes.
/// Only one that was refused for its age moves the clock.
pub proof fn law_a_good_package_is_kept(
    before: ComponentBackend,
    after: BookView,
    validated: Result<ValidatedFirmware, ManifestError>,
    decoded: Option<SuitManifest>,
    r: Result<String, Refusal>,
)
    requires
        before.book@.ids_ok(),
        package_received(before, after, validated, decoded, r),
    ensures
        r is Ok <==> (validated matches Ok(v) && v.bank_set == before.setup.bank_set),
        r matches Ok(id) ==> {
            &&& !before.book@.knows(id@)
            &&& after.packages =~= before.book@.packages.insert(
                id@,
                StoredPackage { validated: validated->Ok_0, status: PackageStatus::Verified },
            )
            &&& after.describe.contains_key(id@) <==> decoded is Some
            &&& after.session == before.book@.session
            &&& after.transfer == before.book@.transfer
            &&& after.next_id == before.book@.next_id + 1
        },
        r matches Err(no) ==> {
            &&& after == before.book@
            &&& no.answer@ is InvalidRequest
            &&& no.raise_time is Some ==> (validated matches Err(why) && why is RollbackRejected)
        },
{
    law_next_id_is_fresh(before.book@.next_id);
}

/// A manifest that is uploaded on its own is kept exactly where it was found good, with
/// its bytes and under an id that nothing had before, and can be asked for by that id.
pub proof fn law_a_good_manifest_is_kept(
    before: ComponentBackend,
    after: BookView,
    data: Seq<u8>,
    validated: Result<(), Unaccepted>,
    r: Result<String, Refusal>,
)
    requires
        before.book@.ids_ok(),
        manifest_received(before, after, data, validated, r),
    ensures
        r is Ok <==> validated is Ok,
        r matches Ok(id) ==> {
            &&& !before.book@.knows(id@)
            &&& after.manifests.contains_key(id@)
            &&& after.manifests[id@] == data
            &&& after.packages == before.book@.packages
        },
        r is Err ==> after == before.book@,
        validated matches Err(no) ==> r->Err_0.answer@ == no.answer@,
{
    law_next_id_is_fresh(before.book@.next_id);
}

/// There is a place for a payload exactly where the banks are on disk: in their directory
/// and under a name of its own, which ends with the name that it came with.
pub proof fn law_a_payload_gets_its_own_place(
    before: ComponentBackend,
    after: BookView,
    filename: Option<Seq<char>>,
    r: Result<UploadSlot, BackendError>,
)
    requires
        before.book@.ids_ok(),
        slot_given(before, after, filename, r),
    ensures
        r is Ok <==> before.setup.images_dir is Some,
        r matches Ok(slot) ==> {
            &&& slot.dir@ == before.setup.images_dir->0@
            &&& !before.book@.knows(slot.id@)
            &&& ("upload-"@ + slot.id@ + "-"@).is_prefix_of(slot.file_name@)
            &&& filename matches Some(f) ==> slot.file_name@ =~= ("upload-"@ + slot.id@ + "-"@) + f
        },
        after.next_id == before.book@.next_id + 1,
        after.payloads == before.book@.payloads,
{
    law_next_id_is_fresh(before.book@.next_id);
    if let Ok(slot) = r {
        let front = "upload-"@ + slot.id@ + "-"@;
        assert(slot.file_name@.take(front.len() as int) =~= front);
    }
}

proof fn lemma_uri_found(m: SuitManifest, uri: Seq<char>, from: nat)
    requires
        from <= m.components@.len(),
    ensures
        match component_with_uri(m, uri, from) {
            Some(i) => from <= i < m.components@.len() && (m.components@[i as int].uri matches Some(u)
                && u@ == uri) && forall|j: int|
                from <= j < i ==> !((#[trigger] m.components@[j]).uri matches Some(u) && u@ == uri),
            None => forall|j: int|
                from <= j < m.components@.len() ==> !((#[trigger] m.components@[j]).uri matches Some(
                    u,
                ) && u@ == uri),
        },
    decreases m.components@.len() - from,
{
    if from < m.components@.len() {
        lemma_uri_found(m, uri, from + 1);
    }
}

/// An update out of parts goes through its payloads in order. Each is unpacked for the
/// first component that has its address, from where it was saved and against the digest
/// that the manifest gives that component; once all are unpacked the update has an id of
/// its own. A manifest, a payload or an address that is not there ends it.
pub proof fn law_parts_go_to_their_components(
    before: BookView,
    after: BookView,
    manifest_id: Seq<char>,
    decoded: Result<SuitManifest, String>,
    payload_ids: Seq<(String, String)>,
    done: nat,
    target: Bank,
    r: Result<MultiAction, BackendError>,
)
    requires
        done <= payload_ids.len(),
        before.ids_ok(),
        multi_stepped(before, after, manifest_id, decoded, payload_ids, done, target, r),
    ensures
        (r matches Ok(MultiAction::Finished(id))) <==> before.manifests.contains_key(manifest_id)
            && decoded is Ok && done == payload_ids.len(),
        r matches Ok(MultiAction::Finished(id)) ==> !before.knows(id@) && after.next_id
            == before.next_id + 1,
        r matches Ok(MultiAction::Process { plan, path }) ==> {
            let m = decoded->Ok_0;
            let pair = payload_ids[done as int];
            let c = m.components@[plan.component as int];
            &&& after == before
            &&& before.manifests.contains_key(manifest_id)
            &&& done < payload_ids.len()
            &&& plan.component < m.components@.len()
            &&& c.uri matches Some(u)
            &&& u@ == pair.0@
            &&& c.digest matches Some(d)
            &&& plan.digest@ == d@
            &&& plan.bank == target
            &&& plan.total == m.components@.len()
            &&& forall|j: int|
                0 <= j < plan.component ==> !((#[trigger] m.components@[j]).uri matches Some(v)
                    && v@ == pair.0@)
            &&& before.payloads.contains_key(pair.1@)
            &&& path@ == before.payloads[pair.1@]
        },
        r is Err ==> after == before,
{
    law_next_id_is_fresh(before.next_id);
    if let Ok(m) = decoded {
        if done < payload_ids.len() {
            lemma_uri_found(m, payload_ids[done as int].0@, 0);
        }
    }
}

/// An unpacked payload is good exactly where it has the digest that was planned for it.
pub proof fn law_only_promised_payloads_are_good(
    uri: Seq<char>,
    plan: PayloadPlan,
    outcome: Result<FileHash, String>,
    r: Result<(), BackendError>,
)
    requires
        payload_judged(uri, plan, outcome, r),
    ensures
        r is Ok <==> (outcome matches Ok(read) && sha256(read.bytes()) == plan.digest@),
        r matches Err(e) ==> e@ is Internal,
{
}

/// A part that was read back is good exactly where the provider of banks says so; one
/// that is something else is the caller's fault, and one that cannot be read is not.
pub proof fn law_read_back_decides(
    file_id: Seq<char>,
    outcome: Result<(), PayloadFault>,
    r: Result<(), BackendError>,
)
    requires
        part_answered(file_id, outcome, r),
    ensures
        r is Ok <==> outcome is Ok,
        r matches Err(e) ==> (e@ is InvalidRequest <==> outcome->Err_0 is Unverifiable),
        r matches Err(e) ==> (e@ is Internal <==> outcome->Err_0 is Other),
{
}

/// A package is shown exactly where it is there: under its id, with the size of its image
/// and its version, for this component. Its digest is that of its image. Deleting it
/// takes that package away and no other; what is not there is not found.
pub proof fn law_packages_are_what_was_kept(
    b: ComponentBackend,
    id: Seq<char>,
    shown: Result<PackageInfo, BackendError>,
    verified: Result<VerifyResult, BackendError>,
    after: BookView,
    deleted: Result<(), BackendError>,
    other: Seq<char>,
)
    requires
        package_shown(b, id, shown),
        package_verified(b.book@, id, verified),
        package_deleted(b.book@, after, id, deleted),
    ensures
        shown is Ok <==> b.book@.packages.contains_key(id),
        verified is Ok <==> b.book@.packages.contains_key(id),
        deleted is Ok <==> b.book@.packages.contains_key(id),
        shown matches Ok(i) ==> {
            let p = b.book@.packages[id];
            &&& i.id@ == id
            &&& i.size == p.validated.image_data@.len()
            &&& i.version matches Some(v)
            &&& v@ == p.validated.version_display@
            &&& i.target_ecu matches Some(t)
            &&& t@ == b.setup.entity_info.id@
            &&& i.status == p.status
        },
        verified matches Ok(v) ==> {
            &&& v.valid
            &&& v.checksum matches Some(c)
            &&& c@ == hex_text(sha256(b.book@.packages[id].validated.image_data@))
        },
        !after.packages.contains_key(id),
        other != id ==> (after.packages.contains_key(other) <==> b.book@.packages.contains_key(
            other,
        )),
        other != id && b.book@.packages.contains_key(other) ==> after.packages[other]
            == b.book@.packages[other],
        after.transfer == b.book@.transfer,
        shown matches Err(e) ==> e@ == BackendFault::EntityNotFound(id),
        deleted matches Err(e) ==> e@ == BackendFault::EntityNotFound(id),
{
}

/// An uploaded manifest is good exactly where the digest that it came with is the one
/// that is expected, whatever the case of its letters. A payload is read back from the
/// bank and the file it went to, against the digest that it was written with. What was
/// never uploaded is not found.
pub proof fn law_parts_are_verified_against_their_upload(
    book: BookView,
    file_id: Seq<char>,
    expected_sha256: Seq<char>,
    r: Result<PartCheck, BackendError>,
)
    requires
        part_judged(book, file_id, expected_sha256, r),
    ensures
        !book.parts.contains_key(file_id) ==> (r matches Err(e) && e@ is EntityNotFound),
        book.parts.contains_key(file_id) ==> match book.parts[file_id] {
            PartView::Manifest { upload_sha256 } => {
                &&& hex_text(upload_sha256) == expected_sha256 ==> r is Ok
                &&& hex_text(upload_sha256).len() != expected_sha256.len() ==> r is Err
                &&& r is Ok ==> (r matches Ok(PartCheck::Good))
                &&& r matches Err(e) ==> e@ is InvalidRequest
            },
            PartView::OnDisk { bank, name, inner_sha256 } => {
                &&& r matches Ok(PartCheck::ReadBack { bank: b, name: n, inner_sha256: s })
                &&& b == bank
                &&& n@ == name
                &&& s@ == inner_sha256
            },
        },
{
}

/// The package that a transfer is about is the one with the id that the transfer names;
/// a transfer that names none, or one that is gone, is about none.
pub proof fn law_the_transfer_names_its_package(b: ComponentBackend)
    ensures
        b.book@.transfer is None ==> b.package_in_scope() is None,
        b.book@.transfer matches Some(t) ==> {
            &&& b.package_in_scope() is Some <==> t.package.len() > 0
                && b.book@.packages.contains_key(t.package)
            &&& b.package_in_scope() matches Some(p) ==> p == b.book@.packages[t.package]
        },
{
}

/// What is sealed is the identity of the package that the transfer is about, with a
/// generation one above that of the bank that is known to be good: the active bank once
/// it is confirmed, the other one while it is on trial; the first where that bank has no
/// record. Without a boot state nothing is sealed.
pub proof fn law_the_seal_supersedes_the_good_bank(
    b: ComponentBackend,
    nv: NvView,
    r: Result<SealRequest, BackendError>,
)
    requires
        seal_asked(b, nv, r),
    ensures
        r is Ok <==> nv.boot is Some,
        r matches Ok(s) ==> {
            let boot = nv.boot->0;
            let good_is_a = boot.committed == (boot.active_bank is A);
            let record = if good_is_a {
                nv.meta_a
            } else {
                nv.meta_b
            };
            &&& record matches Some(m) ==> s.gen == m.gen + 1
            &&& record is None ==> s.gen == 1
            &&& b.package_in_scope() matches Some(p) ==> s.identity
                == p.validated.image_meta.identity
            &&& b.package_in_scope() is None ==> s.identity.blank()
        },
{
}

/// A signed time is put to the floor of the clock exactly where there is a security
/// module, and the clock is set to the floor exactly where it was raised and something
/// sets the clock.
pub proof fn law_who_moves_the_clock(
    b: ComponentBackend,
    iat: u64,
    outcome: Result<u64, String>,
    no: ManifestError,
)
    ensures
        b.floor_asked(iat) is Some <==> b.setup.fittings.hsm,
        b.floor_asked(iat) matches Some(to) ==> to == iat,
        b.clock_asked(outcome) is Some <==> outcome is Ok && b.setup.fittings.wall_clock,
        b.clock_asked(outcome) matches Some(to) ==> outcome == Ok::<u64, String>(to),
        b.trusted_time(no) is Some <==> b.setup.fittings.hsm && no is RollbackRejected
            && no->signing_time_secs is Some,
        b.time_told(None) is None,
        b.time_told(Some(no)) == b.trusted_time(no),
{
}

/// A payload that was saved is found under its id where it was saved; every other one
/// stays where it was, and nothing else changes.
pub proof fn law_a_saved_payload_is_kept(
    before: BookView,
    after: BookView,
    id: Seq<char>,
    path: Seq<char>,
    other: Seq<char>,
)
    requires
        payload_kept(before, after, id, path),
    ensures
        after.payloads.contains_key(id) && after.payloads[id] == path,
        other != id ==> (after.payloads.contains_key(other) <==> before.payloads.contains_key(
            other,
        )),
        other != id && before.payloads.contains_key(other) ==> after.payloads[other]
            == before.payloads[other],
        after.session == before.session,
        after.transfer == before.transfer,
        after.packages == before.packages,
        after.manifests == before.manifests,
        after.parts == before.parts,
        after.next_id == before.next_id,
{
}

/// A manifest that was uploaded on its own is found under its id, byte for byte, and one
/// that was not is a wrong request.
pub proof fn law_an_uploaded_manifest_is_found(
    book: BookView,
    id: Seq<char>,
    r: Result<&Vec<u8>, BackendError>,
)
    requires
        manifest_found(book, id, r),
    ensures
        r is Ok <==> book.manifests.contains_key(id),
        r matches Ok(bytes) ==> bytes@ == book.manifests[id],
        r matches Err(e) ==> e@ is InvalidRequest,
{
}

/// Why the next part of an update is not unpacked: a manifest, a payload or an address
/// that is not there is a wrong request; a manifest that cannot be read, or gives no
/// digest, is a failure of this node. Nothing changes then.
pub proof fn law_why_a_part_is_not_unpacked(
    before: BookView,
    after: BookView,
    manifest_id: Seq<char>,
    decoded: Result<SuitManifest, String>,
    payload_ids: Seq<(String, String)>,
    done: nat,
    target: Bank,
    r: Result<MultiAction, BackendError>,
)
    requires
        multi_stepped(before, after, manifest_id, decoded, payload_ids, done, target, r),
        done < payload_ids.len(),
        r is Err,
    ensures
        after == before,
        !before.manifests.contains_key(manifest_id) ==> r->Err_0@ is InvalidRequest,
        before.manifests.contains_key(manifest_id) && decoded is Err ==> r->Err_0@ is Internal,
        before.manifests.contains_key(manifest_id) && decoded is Ok ==> {
            let uri = payload_ids[done as int].0@;
            let known = component_with_uri(decoded->Ok_0, uri, 0) is Some;
            r->Err_0@ is InvalidRequest <==> !before.payloads.contains_key(
                payload_ids[done as int].1@,
            ) || !known
        },
{
}

} // verus!
