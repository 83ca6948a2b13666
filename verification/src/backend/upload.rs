//! Uploads: manifests, payloads and whole envelopes.

use crate::backend::admission::{StartAction, StartEvent};
use crate::backend::book::{
    given_out, law_next_id_is_fresh, BookView, FlashSessionState, FlashTransferState, PackageStatus, PartView,
    SessionView, StoredPackage, TransferView, UploadedPartLocation,
};
use crate::backend::describe::{described, extract_describe_meta};
use crate::backend::packages::{taken_as, turned_down, Refusal, Unaccepted};
use crate::backend::setup::ComponentBackend;
use crate::bank_spec::{payload_name, payload_target_name_for_id};
use crate::banks::{Bank, FlashState, NvView};
use crate::error::{refused, BackendError, BackendFault};
use crate::firmware::{copy_bytes, copy_files, files_view, FileView, IvdFile, SuitManifest};
use crate::hashing::{promise_broken, promise_broken_text, FileHash};
use crate::logs::entry::{copy_text, text_option, texts};
use crate::manifest_provider::{ManifestError, ValidatedFirmware};
use crate::outside::{sha256, sha256_of};
use crate::text::{cat2, decimal, decimal_text};
use vstd::prelude::*;

verus! {

// ---------------------------------------------------------------------------
// Gathering a manifest
// ---------------------------------------------------------------------------

/// A manifest may hold this many bytes.
pub const MAX_MANIFEST: usize = 102_400;

/// A manifest that is coming in piece by piece.
#[derive(Debug, Clone)]
pub struct ManifestBuffer {
    pub data: Vec<u8>,
}

/// What taking the next piece of a manifest did.
pub open spec fn piece_taken(
    before: Seq<u8>,
    after: Seq<u8>,
    chunk: Result<Vec<u8>, String>,
    r: Result<(), BackendError>,
) -> bool {
    match chunk {
        Err(why) => after == before && refused(r, BackendFault::Internal("stream: "@ + why@)),
        Ok(bytes) => {
            &&& after == before + bytes@
            &&& match r {
                Ok(_) => after.len() <= MAX_MANIFEST,
                Err(e) => after.len() > MAX_MANIFEST && e@ == BackendFault::InvalidRequest(
                    "manifest too large (>100KB)"@,
                ),
            }
        },
    }
}

impl ManifestBuffer {
    /// Nothing has come in.
    pub fn new() -> (b: ManifestBuffer)
        ensures
            b.data@.len() == 0,
    {
        ManifestBuffer { data: Vec::new() }
    }

    /// Takes the next piece. A piece that could not be read, or that makes the
    /// manifest too large, ends the upload.
    pub fn take(&mut self, chunk: Result<Vec<u8>, String>) -> (r: Result<(), BackendError>)
        ensures
            piece_taken(old(self).data@, final(self).data@, chunk, r),
    {
        match chunk {
            Err(why) => Err(BackendError::Internal(cat2("stream: ", why.as_str()))),
            Ok(bytes) => {
                let mut more = bytes;
                self.data.append(&mut more);
                if self.data.len() > MAX_MANIFEST {
                    Err(BackendError::InvalidRequest("manifest too large (>100KB)".to_owned()))
                } else {
                    Ok(())
                }
            },
        }
    }
}

// ---------------------------------------------------------------------------
// What an upload is
// ---------------------------------------------------------------------------

/// What the next upload is.
#[derive(Debug, Clone, Copy, PartialEq, Eq, Structural)]
pub enum UploadKind {
    /// The manifest of the update that was started.
    Manifest,
    /// A payload of the update that was started.
    Payload,
    /// A whole envelope, outside of any update that was started.
    Envelope,
}

/// What the next upload is.
pub open spec fn next_upload(session: Option<SessionView>) -> UploadKind {
    match session {
        Some(SessionView::AwaitingManifest) => UploadKind::Manifest,
        Some(SessionView::AwaitingPayload { .. }) => UploadKind::Payload,
        _ => UploadKind::Envelope,
    }
}

/// An upload that was taken.
#[derive(Debug, Clone)]
pub struct Uploaded {
    /// What it is called from now on.
    pub id: String,
    /// The target bank holds all it is going to hold and is to be sealed.
    pub seal: bool,
}

/// An upload was taken under an id.
pub open spec fn was_uploaded(r: Result<Uploaded, Refusal>, id: Seq<char>, seal: bool) -> bool {
    match r {
        Ok(u) => u.id@ == id && u.seal == seal,
        Err(_) => false,
    }
}

/// The book after the facts of a manifest were kept under the next id.
pub open spec fn manifest_described(
    book: BookView,
    m: SuitManifest,
    version_display: Seq<char>,
) -> BookView {
    BookView {
        describe: book.describe.insert(book.fresh_id(), described(m, version_display)),
        ..book.id_taken()
    }
}

/// The book after a manifest was taken. `package` is what is to be installed:
/// an envelope with payloads is complete with that, another waits for the
/// payload of its first component.
pub open spec fn manifest_taken(
    book: BookView,
    data: Seq<u8>,
    m: SuitManifest,
    version_display: Seq<char>,
    package: ValidatedFirmware,
) -> BookView {
    let id = book.fresh_id();
    let kept = manifest_described(book, m, version_display);
    let stored = BookView {
        packages: kept.packages.insert(
            id,
            StoredPackage { validated: package, status: PackageStatus::Verified },
        ),
        parts: kept.parts.insert(id, PartView::Manifest { upload_sha256: sha256(data) }),
        ..kept
    };
    if m.integrated {
        BookView {
            session: Some(SessionView::Complete),
            transfer: match stored.transfer {
                Some(t) => Some(
                    TransferView { state: FlashState::AwaitingActivation, package: id, ..t },
                ),
                None => None,
            },
            ..stored
        }
    } else {
        BookView {
            session: Some(
                SessionView::AwaitingPayload { manifest: data, next: 0, total: m.components@.len() },
            ),
            transfer: match stored.transfer {
                Some(t) => Some(TransferView { package: id, ..t }),
                None => None,
            },
            ..stored
        }
    }
}

/// What is to be done with a payload.
#[derive(Debug, Clone)]
pub struct PayloadPlan {
    /// The component that the payload is for.
    pub component: usize,
    /// The components of the manifest.
    pub total: usize,
    pub bank: Bank,
    /// The file that the payload goes to.
    pub name: String,
    /// The digest that the payload must have once it is unpacked.
    pub digest: Vec<u8>,
}

/// A plan is for the payload of a component, as the manifest has it.
pub open spec fn plans_for(p: PayloadPlan, m: SuitManifest, component: nat, total: nat) -> bool {
    &&& p.component == component
    &&& p.total == total
    &&& p.name@ == file_of(m, component)
    &&& digest_of(m, component) == Some(p.digest@)
}

/// A payload that was written and is what the manifest promises.
#[derive(Debug, Clone)]
pub struct WrittenPayload {
    pub bank: Bank,
    /// The file that it went to.
    pub name: String,
    pub sha256: [u8; 32],
    /// It is the payload of the last component: the target bank is to be sealed.
    pub last: bool,
}

/// The book after the payload of a component was written as a file.
pub open spec fn payload_taken(
    book: BookView,
    component: nat,
    total: nat,
    file: FileView,
) -> BookView {
    let noted = BookView {
        transfer: match book.transfer {
            Some(t) => Some(TransferView { files: t.files.push(file), ..t }),
            None => None,
        },
        ..book
    };
    if component + 1 >= total {
        BookView {
            session: Some(SessionView::Complete),
            transfer: match noted.transfer {
                Some(t) => Some(
                    TransferView { state: FlashState::AwaitingActivation, size: file.size, ..t },
                ),
                None => None,
            },
            ..noted
        }
    } else {
        BookView {
            session: match book.session {
                Some(SessionView::AwaitingPayload { manifest, next, total }) => Some(
                    SessionView::AwaitingPayload { manifest, next: component + 1, total },
                ),
                s => s,
            },
            ..noted
        }
    }
}

/// What came of writing a payload: it was refused and nothing changed, or it was taken.
pub open spec fn payload_settled(
    before: BookView,
    after: BookView,
    plan: PayloadPlan,
    outcome: Result<FileHash, BackendError>,
    r: Result<WrittenPayload, BackendError>,
) -> bool {
    match outcome {
        Err(e) => after == before && r == Err::<WrittenPayload, BackendError>(e),
        Ok(read) => if sha256(read.bytes()) != plan.digest@ {
            after == before && refused(
                r,
                BackendFault::Internal(
                    promise_broken(plan.name@, sha256(read.bytes()), plan.digest@),
                ),
            )
        } else {
            &&& after == payload_taken(
                before,
                plan.component as nat,
                plan.total as nat,
                FileView {
                    path: plan.name@,
                    sha256: plan.digest@,
                    size: read.bytes().len() as u64,
                },
            )
            &&& r matches Ok(w)
            &&& w.last == (plan.component + 1 >= plan.total)
            &&& w.bank == plan.bank
            &&& w.name@ == plan.name@
            &&& w.sha256@ == plan.digest@
        },
    }
}

/// What asking for a plan for the next payload gave.
pub open spec fn payload_planned(
    session: Option<SessionView>,
    decoded: Result<SuitManifest, String>,
    target: Bank,
    r: Result<PayloadPlan, BackendError>,
) -> bool {
    match session {
        Some(SessionView::AwaitingPayload { manifest, next, total }) => match decoded {
            Err(why) => refused(r, BackendFault::Internal("decode manifest: "@ + why@)),
            Ok(m) => match r {
                Ok(p) => p.bank == target && plans_for(p, m, next, total),
                Err(e) => digest_of(m, next) is None && e@ == BackendFault::Internal(
                    "no digest for component "@ + decimal_text(next),
                ),
            },
        },
        _ => refused(r, BackendFault::InvalidRequest("no active flash session"@)),
    }
}

/// A payload was noted under an id.
pub open spec fn payload_noted(
    before: BookView,
    after: BookView,
    written: WrittenPayload,
    id: Seq<char>,
) -> bool {
    &&& id == before.fresh_id()
    &&& after == (BookView {
        parts: before.parts.insert(
            id,
            PartView::OnDisk {
                bank: written.bank,
                name: written.name@,
                inner_sha256: written.sha256@,
            },
        ),
        ..before.id_taken()
    })
}

/// What came of a manifest that was uploaded.
pub open spec fn manifest_handled(
    before: ComponentBackend,
    after: BookView,
    data: Seq<u8>,
    validated: Result<ValidatedFirmware, Unaccepted>,
    decoded: Result<SuitManifest, String>,
    full: Result<ValidatedFirmware, ManifestError>,
    r: Result<Uploaded, Refusal>,
) -> bool {
    let book = before.book@;
    if data.len() > MAX_MANIFEST {
        after == book && turned_down(
            r,
            BackendFault::InvalidRequest("manifest too large (>100KB)"@),
            None,
        )
    } else {
        match (validated, decoded) {
            (Err(no), _) => after == book && turned_down(r, no.answer@, before.time_told(no.why)),
            (Ok(_), Err(why)) => after == book && turned_down(
                r,
                BackendFault::Internal("decode manifest: "@ + why@),
                None,
            ),
            (Ok(v), Ok(m)) => if m.integrated {
                match full {
                    Err(no) => after == manifest_described(book, m, v.version_display@)
                        && turned_down(
                        r,
                        BackendFault::InvalidRequest("manifest: "@ + no.message()),
                        before.trusted_time(no),
                    ),
                    Ok(f) => after == manifest_taken(book, data, m, v.version_display@, f)
                        && was_uploaded(r, book.fresh_id(), true),
                }
            } else {
                after == manifest_taken(book, data, m, v.version_display@, v) && was_uploaded(
                    r,
                    book.fresh_id(),
                    false,
                )
            },
        }
    }
}

/// What came of the upload of a whole envelope.
pub open spec fn envelope_finished(
    before: ComponentBackend,
    after: BookView,
    outcome: Result<ValidatedFirmware, Unaccepted>,
    r: Result<String, Refusal>,
) -> bool {
    match outcome {
        Err(no) => turned_down(r, no.answer@, before.time_told(no.why)) && after
            == envelope_failed(before.book@),
        Ok(v) => taken_as(r, before.book@.fresh_id()) && after == envelope_taken(before.book@, v),
    }
}

/// The book after the upload of a whole envelope began.
pub open spec fn envelope_begun(book: BookView, content_length: Option<u64>) -> BookView {
    BookView {
        transfer: Some(
            TransferView {
                id: book.fresh_id(),
                package: Seq::empty(),
                state: FlashState::Transferring,
                size: match content_length {
                    Some(n) => n,
                    None => 0,
                },
                files: Seq::empty(),
            },
        ),
        upload_phase: Some(FlashState::Transferring),
        ..book.id_taken()
    }
}

/// The book after a whole envelope was taken.
pub open spec fn envelope_taken(book: BookView, package: ValidatedFirmware) -> BookView {
    BookView {
        upload_phase: None,
        transfer: match book.transfer {
            Some(t) => Some(
                TransferView {
                    state: FlashState::Preparing,
                    files: files_view(package.streamed_files@),
                    ..t
                },
            ),
            None => None,
        },
        packages: book.packages.insert(
            book.fresh_id(),
            StoredPackage { validated: package, status: PackageStatus::Verified },
        ),
        ..book.id_taken()
    }
}

/// The book after a whole envelope was refused.
pub open spec fn envelope_failed(book: BookView) -> BookView {
    BookView { upload_phase: None, ..book.with_transfer_state(FlashState::Failed) }
}

/// The answer with the manifest that the next payload belongs to.
pub open spec fn manifest_pending(
    session: Option<SessionView>,
    r: Result<&Vec<u8>, BackendError>,
) -> bool {
    match r {
        Ok(bytes) => match session {
            Some(SessionView::AwaitingPayload { manifest, .. }) => bytes@ == manifest,
            _ => false,
        },
        Err(e) => next_upload(session) != UploadKind::Payload && e@ == BackendFault::InvalidRequest(
            "no active flash session"@,
        ),
    }
}

impl ComponentBackend {
    /// What the next upload is.
    pub fn upload_kind(&self) -> (r: UploadKind)
        ensures
            r == next_upload(self.book@.session),
    {
        match &self.book.session {
            Some(FlashSessionState::AwaitingManifest) => UploadKind::Manifest,
            Some(FlashSessionState::AwaitingPayload { .. }) => UploadKind::Payload,
            _ => UploadKind::Envelope,
        }
    }

    /// The lowest security version that is still taken: that of the bank the
    /// component runs from.
    pub fn min_security_ver(&self, nv: &NvView) -> (r: u32)
        ensures
            r == nv.security_floor(self.running_bank),
    {
        nv.floor_of(self.running_bank)
    }

    /// Takes the manifest of the update that was started. `validated` is what
    /// judging its header gave, `decoded` what it says, and `full` what judging
    /// it with its payloads gave, which counts only where it carries some. One that
    /// is too large is not looked at, and one that is refused may still raise the
    /// floor of the clock.
    pub fn handle_manifest_upload(
        &mut self,
        data: Vec<u8>,
        validated: Result<ValidatedFirmware, Unaccepted>,
        decoded: Result<SuitManifest, String>,
        full: Result<ValidatedFirmware, ManifestError>,
    ) -> (r: Result<Uploaded, Refusal>)
        requires
            old(self).wf(),
            old(self).book.next_id < u64::MAX,
        ensures
            final(self).wf(),
            final(self).same_but_book(*old(self)),
            manifest_handled(
                *old(self),
                final(self).book@,
                data@,
                validated,
                decoded,
                full,
                r,
            ),
    {
        if data.len() > MAX_MANIFEST {
            let answer = BackendError::InvalidRequest("manifest too large (>100KB)".to_owned());
            return Err(Refusal { answer, raise_time: None });
        }
        let v = match validated {
            Ok(v) => v,
            Err(no) => {
                return Err(self.refusal_of(no));
            },
        };
        let m = match decoded {
            Ok(m) => m,
            Err(why) => {
                let answer = BackendError::Internal(cat2("decode manifest: ", why.as_str()));
                return Err(Refusal { answer, raise_time: None });
            },
        };
        let ghost start = self.book@;
        let id = self.book.take_id();
        proof {
            law_next_id_is_fresh(start.next_id);
        }
        let meta = extract_describe_meta(&m, v.version_display.as_str());
        self.book.keep_describe(id.as_str(), meta);
        assert(self.book@ =~= manifest_described(start, m, v.version_display@));
        let upload_sha256 = sha256_of(data.as_slice());
        let part = UploadedPartLocation::Manifest { upload_sha256 };
        if m.integrated {
            let package = match full {
                Ok(f) => f,
                Err(no) => {
                    let why = no.to_text();
                    let answer = BackendError::InvalidRequest(cat2("manifest: ", why.as_str()));
                    return Err(self.refusal_of(Unaccepted { answer, why: Some(no) }));
                },
            };
            self.book.keep_package(
                id.as_str(),
                StoredPackage { validated: package, status: PackageStatus::Verified },
            );
            self.book.keep_part(id.as_str(), part);
            self.book.session = Some(FlashSessionState::Complete);
            if let Some(t) = &mut self.book.transfer {
                t.state = FlashState::AwaitingActivation;
                t.package_id = id.clone();
            }
            assert(self.book@ =~= manifest_taken(start, data@, m, v.version_display@, package));
            Ok(Uploaded { id, seal: true })
        } else {
            let ghost version = v.version_display@;
            self.book.keep_package(
                id.as_str(),
                StoredPackage { validated: v, status: PackageStatus::Verified },
            );
            self.book.keep_part(id.as_str(), part);
            if let Some(t) = &mut self.book.transfer {
                t.package_id = id.clone();
            }
            let ghost bytes = data@;
            self.book.session = Some(
                FlashSessionState::AwaitingPayload {
                    manifest_bytes: data,
                    next_component: 0,
                    total_components: m.components.len(),
                },
            );
            assert(self.book@ =~= manifest_taken(start, bytes, m, version, v));
            Ok(Uploaded { id, seal: false })
        }
    }

    /// The manifest that the next payload belongs to.
    pub fn pending_manifest(&self) -> (r: Result<&Vec<u8>, BackendError>)
        ensures
            manifest_pending(self.book@.session, r),
    {
        match &self.book.session {
            Some(FlashSessionState::AwaitingPayload { manifest_bytes, .. }) => Ok(manifest_bytes),
            _ => Err(BackendError::InvalidRequest("no active flash session".to_owned())),
        }
    }

    /// What is to be done with the next payload. `decoded` is what its manifest
    /// says.
    pub fn plan_payload(&self, decoded: &Result<SuitManifest, String>, target: Bank) -> (r: Result<
        PayloadPlan,
        BackendError,
    >)
        ensures
            payload_planned(self.book@.session, *decoded, target, r),
    {
        match &self.book.session {
            Some(
                FlashSessionState::AwaitingPayload { manifest_bytes, next_component, total_components },
            ) => {
                let m = match decoded {
                    Ok(m) => m,
                    Err(why) => {
                        return Err(BackendError::Internal(cat2("decode manifest: ", why.as_str())));
                    },
                };
                let digest = match component_digest(m, *next_component) {
                    Some(d) => d,
                    None => {
                        return Err(
                            BackendError::Internal(
                                cat2(
                                    "no digest for component ",
                                    decimal(*next_component as u64).as_str(),
                                ),
                            ),
                        );
                    },
                };
                Ok(
                    PayloadPlan {
                        component: *next_component,
                        total: *total_components,
                        bank: target,
                        name: component_file(m, *next_component),
                        digest,
                    },
                )
            },
            _ => Err(BackendError::InvalidRequest("no active flash session".to_owned())),
        }
    }

    /// Takes what came of writing a payload. It stays only if it has the digest that
    /// the manifest gives; a payload that could not be written, or is something else,
    /// is refused, and the next payload is for the same component. After the last
    /// payload the target bank is to be sealed before `payload_recorded`.
    pub fn payload_written(
        &mut self,
        plan: &PayloadPlan,
        outcome: Result<FileHash, BackendError>,
    ) -> (r: Result<WrittenPayload, BackendError>)
        requires
            old(self).wf(),
            plan.component < usize::MAX,
        ensures
            final(self).wf(),
            final(self).same_but_book(*old(self)),
            final(self).book.next_id == old(self).book.next_id,
            payload_settled(old(self).book@, final(self).book@, *plan, outcome, r),
    {
        let read = match outcome {
            Ok(read) => read,
            Err(e) => {
                return Err(e);
            },
        };
        let (sha256, size) = match read.finish_as(plan.digest.as_slice()) {
            Ok(f) => f,
            Err(actual) => {
                return Err(
                    BackendError::Internal(
                        promise_broken_text(plan.name.as_str(), &actual, plan.digest.as_slice()),
                    ),
                );
            },
        };
        let ghost start = self.book@;
        let file = IvdFile {
            relative_path: plan.name.clone(),
            sha256: vstd::slice::slice_to_vec(sha256.as_slice()),
            size,
        };
        let ghost seen = file@;
        if let Some(t) = &mut self.book.transfer {
            let ghost before = t.streamed_files@;
            t.streamed_files.push(file);
            assert(files_view(t.streamed_files@) =~= files_view(before).push(seen));
        }
        let next: usize = plan.component + 1;
        let last = next >= plan.total;
        if last {
            self.book.session = Some(FlashSessionState::Complete);
            if let Some(t) = &mut self.book.transfer {
                t.state = FlashState::AwaitingActivation;
                t.image_size = size;
            }
        } else if let Some(FlashSessionState::AwaitingPayload { next_component, .. }) =
            &mut self.book.session {
            *next_component = next;
        }
        assert(self.book@ =~= payload_taken(
            start,
            plan.component as nat,
            plan.total as nat,
            seen,
        ));
        Ok(WrittenPayload { bank: plan.bank, name: plan.name.clone(), sha256, last })
    }

    /// Takes note of where a payload went, under a new id.
    pub fn payload_recorded(&mut self, written: &WrittenPayload) -> (id: String)
        requires
            old(self).wf(),
            old(self).book.next_id < u64::MAX,
        ensures
            final(self).wf(),
            final(self).same_but_book(*old(self)),
            payload_noted(old(self).book@, final(self).book@, *written, id@),
    {
        proof {
            law_next_id_is_fresh(self.book@.next_id);
        }
        let id = self.book.take_id();
        self.book.keep_part(
            id.as_str(),
            UploadedPartLocation::OnDisk {
                bank: written.bank,
                name: written.name.clone(),
                inner_sha256: written.sha256,
            },
        );
        id
    }

    /// Takes what was done to begin the upload of a whole envelope outside of any
    /// update that was started, and says what is to be done next. It is admitted
    /// like one: only then its bank is wiped, and then the upload begins.
    pub fn begin_envelope(
        &mut self,
        event: StartEvent,
        content_length: Option<u64>,
        nv: &NvView,
    ) -> (r: StartAction)
        requires
            old(self).wf(),
            old(self).book.next_id < u64::MAX,
        ensures
            final(self).wf(),
            final(self).same_but_book(*old(self)),
            (final(self).book@, r@) == old(self).start_next(
                event,
                *nv,
                envelope_begun(old(self).book@, content_length),
            ),
    {
        match event {
            StartEvent::Asked { gate, target } => {
                return match self.give_leave(nv, &gate, target) {
                    Ok(leave) => StartAction::Prepare(leave),
                    Err(e) => StartAction::Failed(e),
                };
            },
            StartEvent::Prepared { leave, outcome } => {
                if let Err(why) = outcome {
                    return StartAction::Failed(BackendError::Internal(why));
                }
            },
        }
        let ghost start = self.book@;
        let id = self.book.take_id();
        self.book.transfer = Some(
            FlashTransferState {
                transfer_id: id.clone(),
                package_id: String::new(),
                state: FlashState::Transferring,
                image_size: match content_length {
                    Some(n) => n,
                    None => 0,
                },
                streamed_files: Vec::new(),
            },
        );
        self.book.upload_phase = Some(FlashState::Transferring);
        assert(self.book@.transfer->0.files =~= Seq::empty());
        assert(self.book@.transfer->0.package =~= Seq::empty());
        assert(self.book@ =~= envelope_begun(start, content_length));
        StartAction::Started(id)
    }

    /// Ends the upload of a whole envelope with what came of it. One that is refused
    /// may still raise the floor of the clock.
    pub fn finish_envelope(&mut self, outcome: Result<ValidatedFirmware, Unaccepted>) -> (r: Result<
        String,
        Refusal,
    >)
        requires
            old(self).wf(),
            old(self).book.next_id < u64::MAX,
        ensures
            final(self).wf(),
            final(self).same_but_book(*old(self)),
            envelope_finished(*old(self), final(self).book@, outcome, r),
    {
        let ghost start = self.book@;
        self.book.upload_phase = None;
        let v = match outcome {
            Ok(v) => v,
            Err(no) => {
                self.book.set_transfer_state(FlashState::Failed);
                assert(self.book@ =~= envelope_failed(start));
                return Err(self.refusal_of(no));
            },
        };
        let files = copy_files(&v.streamed_files);
        if let Some(t) = &mut self.book.transfer {
            t.state = FlashState::Preparing;
            t.streamed_files = files;
        }
        proof {
            law_next_id_is_fresh(self.book@.next_id);
        }
        let id = self.book.take_id();
        self.book.keep_package(
            id.as_str(),
            StoredPackage { validated: v, status: PackageStatus::Verified },
        );
        assert(self.book@ =~= envelope_taken(start, v));
        Ok(id)
    }
}

/// What a pushed payload adds to the inventory of the transfer is the file of its
/// component with the digest that the manifest gives for it, and nothing else of the
/// inventory changes.
pub proof fn law_pushed_content_was_promised(
    book: BookView,
    p: PayloadPlan,
    m: SuitManifest,
    component: nat,
    total: nat,
    size: u64,
)
    requires
        plans_for(p, m, component, total),
        book.transfer is Some,
    ensures
        ({
            let file = FileView { path: p.name@, sha256: p.digest@, size };
            let files = payload_taken(book, component, total, file).transfer->0.files;
            &&& files.drop_last() == book.transfer->0.files
            &&& files.last().path == file_of(m, component)
            &&& digest_of(m, component) == Some(files.last().sha256)
        }),
{
    let file = FileView { path: p.name@, sha256: p.digest@, size };
    let files = payload_taken(book, component, total, file).transfer->0.files;
    assert(files.drop_last() =~= book.transfer->0.files);
}

/// The digest that a manifest gives for a component.
pub open spec fn digest_of(m: SuitManifest, i: nat) -> Option<Seq<u8>> {
    if i < m.components@.len() {
        match m.components@[i as int].digest {
            Some(d) => Some(d@),
            None => None,
        }
    } else {
        None
    }
}

/// The file that the payload of a component goes to.
pub open spec fn file_of(m: SuitManifest, i: nat) -> Seq<char> {
    if i < m.components@.len() {
        match m.components@[i as int].id {
            Some(segments) => payload_name(Some(segments@)),
            None => payload_name(None),
        }
    } else {
        payload_name(None)
    }
}

/// The digest that a manifest gives for a component.
pub fn component_digest(m: &SuitManifest, i: usize) -> (r: Option<Vec<u8>>)
    ensures
        match r {
            Some(d) => digest_of(*m, i as nat) == Some(d@),
            None => digest_of(*m, i as nat) is None,
        },
{
    if i < m.components.len() {
        match &m.components[i].digest {
            Some(d) => Some(copy_bytes(d)),
            None => None,
        }
    } else {
        None
    }
}

/// The file that the payload of a component goes to.
pub fn component_file(m: &SuitManifest, i: usize) -> (r: String)
    ensures
        r@ == file_of(*m, i as nat),
{
    if i < m.components.len() {
        match &m.components[i].id {
            Some(segments) => payload_target_name_for_id(Some(segments.as_slice())),
            None => payload_target_name_for_id(None),
        }
    } else {
        payload_target_name_for_id(None)
    }
}

/// The address that a manifest gives for the payload of a component.
pub open spec fn uri_of(m: SuitManifest, i: nat) -> Option<Seq<char>> {
    if i < m.components@.len() {
        text_option(m.components@[i as int].uri)
    } else {
        None
    }
}

/// The address that a manifest gives for the payload of a component.
pub fn component_uri(m: &SuitManifest, i: usize) -> (r: Option<String>)
    ensures
        text_option(r) == uri_of(*m, i as nat),
{
    if i < m.components.len() {
        copy_text(&m.components[i].uri)
    } else {
        None
    }
}

/// The files that a manifest declares: one for each of its components.
pub fn declared_files(m: &SuitManifest) -> (r: Vec<String>)
    ensures
        texts(r@) == Seq::new(m.components@.len(), |i: int| file_of(*m, i as nat)),
{
    let mut r: Vec<String> = Vec::new();
    let mut i: usize = 0;
    while i < m.components.len()
        invariant
            i <= m.components@.len(),
            texts(r@) == Seq::new(i as nat, |j: int| file_of(*m, j as nat)),
        decreases m.components@.len() - i,
    {
        let ghost before = r@;
        let name = component_file(m, i);
        r.push(name);
        assert(texts(r@) =~= texts(before).push(name@));
        i += 1;
    }
    r
}

// ---------------------------------------------------------------------------
// Laws
// ---------------------------------------------------------------------------

/// What is uploaded next goes by the session alone: the manifest while the session waits
/// for it, a payload while it waits for one, and else a whole envelope.
pub proof fn law_the_session_tells_what_comes_next(session: Option<SessionView>)
    ensures
        next_upload(session) is Manifest <==> session == Some(SessionView::AwaitingManifest),
        next_upload(session) is Payload <==> (session matches Some(s) && s is AwaitingPayload),
        next_upload(session) is Envelope <==> session is None || session == Some(
            SessionView::Complete,
        ),
{
}

/// A manifest is taken exactly where it is small enough, its header and its text are
/// good, and its payloads are too where it carries them. It is then kept under an id
/// that nothing had before, with what judging it gave and the digest of its bytes; one
/// that carries its payloads is complete, and any other waits for the payload of its
/// first component. One that is not taken starts nothing.
pub proof fn law_a_good_manifest_is_taken(
    before: ComponentBackend,
    after: BookView,
    data: Seq<u8>,
    validated: Result<ValidatedFirmware, Unaccepted>,
    decoded: Result<SuitManifest, String>,
    full: Result<ValidatedFirmware, ManifestError>,
    r: Result<Uploaded, Refusal>,
)
    requires
        before.book@.ids_ok(),
        manifest_handled(before, after, data, validated, decoded, full, r),
    ensures
        r is Ok <==> {
            &&& data.len() <= 102_400
            &&& validated is Ok
            &&& decoded matches Ok(m)
            &&& m.integrated ==> full is Ok
        },
        r matches Ok(u) ==> {
            let book = before.book@;
            let m = decoded->Ok_0;
            let kept = if m.integrated {
                full->Ok_0
            } else {
                validated->Ok_0
            };
            &&& u.seal == m.integrated
            &&& !book.knows(u.id@)
            &&& after.next_id == book.next_id + 1
            &&& after.packages =~= book.packages.insert(
                u.id@,
                StoredPackage { validated: kept, status: PackageStatus::Verified },
            )
            &&& after.parts =~= book.parts.insert(
                u.id@,
                PartView::Manifest { upload_sha256: sha256(data) },
            )
            &&& after.describe.contains_key(u.id@)
            &&& m.integrated ==> after.session == Some(SessionView::Complete)
            &&& !m.integrated ==> after.session == Some(
                SessionView::AwaitingPayload { manifest: data, next: 0, total: m.components@.len() },
            )
            &&& book.transfer is None ==> after.transfer is None
            &&& book.transfer matches Some(t) ==> {
                &&& after.transfer matches Some(now)
                &&& now.package == u.id@
                &&& now.id == t.id
                &&& now.files == t.files
                &&& m.integrated ==> now.state is AwaitingActivation
                &&& !m.integrated ==> now.state == t.state
            }
        },
        r is Err ==> {
            &&& after.session == before.book@.session
            &&& after.transfer == before.book@.transfer
            &&& after.packages == before.book@.packages
            &&& after.parts == before.book@.parts
        },
{
    law_next_id_is_fresh(before.book@.next_id);
}

/// A plan is for the component that the session waits for: for its file and with the
/// digest that the manifest gives it. There is none where the session waits for no
/// payload, the manifest cannot be read, or it gives no digest.
pub proof fn law_a_plan_is_for_the_awaited_component(
    session: Option<SessionView>,
    decoded: Result<SuitManifest, String>,
    target: Bank,
    r: Result<PayloadPlan, BackendError>,
)
    requires
        payload_planned(session, decoded, target, r),
    ensures
        r is Ok <==> {
            &&& session matches Some(SessionView::AwaitingPayload { manifest, next, total })
            &&& decoded matches Ok(m)
            &&& next < m.components@.len()
            &&& m.components@[next as int].digest is Some
        },
        r matches Ok(p) ==> {
            let next = session->0->next;
            let m = decoded->Ok_0;
            &&& p.component == next
            &&& p.total == session->0->total
            &&& p.bank == target
            &&& p.digest@ == m.components@[next as int].digest->0@
            &&& p.name@ == payload_name(
                match m.components@[next as int].id {
                    Some(segments) => Some(segments@),
                    None => None,
                },
            )
        },
{
}

/// A payload is taken exactly where it was written and is what the plan promises.
/// Whatever is not taken leaves everything as it was, so the next plan is for the same
/// component. One that is taken adds its file to the inventory, and the session then
/// waits for the component behind it, or is complete where that was the last.
pub proof fn law_a_right_payload_moves_the_session_on(
    before: BookView,
    after: BookView,
    plan: PayloadPlan,
    outcome: Result<FileHash, BackendError>,
    r: Result<WrittenPayload, BackendError>,
)
    requires
        payload_settled(before, after, plan, outcome, r),
    ensures
        r is Ok <==> (outcome matches Ok(read) && sha256(read.bytes()) == plan.digest@),
        r is Err ==> after == before,
        r matches Ok(w) ==> {
            &&& w.bank == plan.bank
            &&& w.name@ == plan.name@
            &&& w.sha256@ == sha256(outcome->Ok_0.bytes())
            &&& w.last <==> plan.component + 1 >= plan.total
            &&& w.last ==> after.session == Some(SessionView::Complete)
            &&& !w.last ==> (before.session matches Some(
                SessionView::AwaitingPayload { manifest, next, total },
            ) ==> after.session == Some(
                SessionView::AwaitingPayload { manifest, next: plan.component as nat + 1, total },
            ))
            &&& before.transfer matches Some(t) ==> {
                &&& after.transfer matches Some(now)
                &&& now.id == t.id
                &&& now.package == t.package
                &&& now.files == t.files.push(
                    FileView {
                        path: plan.name@,
                        sha256: sha256(outcome->Ok_0.bytes()),
                        size: outcome->Ok_0.bytes().len() as u64,
                    },
                )
                &&& w.last ==> now.state is AwaitingActivation && now.size
                    == outcome->Ok_0.bytes().len() as u64
                &&& !w.last ==> now.state == t.state && now.size == t.size
            }
            &&& after.packages == before.packages
            &&& after.parts == before.parts
        },
{
}

/// One payload that was pushed: what was planned for it, what was read, and what was
/// written, with the book before, the book after it was written, and the id under which
/// it was noted.
pub struct Push {
    pub before: BookView,
    pub plan: PayloadPlan,
    pub read: FileHash,
    pub written: WrittenPayload,
    pub after: BookView,
    pub id: Seq<char>,
}

/// A payload was planned for and taken.
pub open spec fn pushed(p: Push, m: SuitManifest, target: Bank) -> bool {
    &&& payload_planned(p.before.session, Ok(m), target, Ok(p.plan))
    &&& payload_settled(p.before, p.after, p.plan, Ok(p.read), Ok(p.written))
}

/// The push with a number was noted, and the one behind it came next.
pub open spec fn noted_at(pushes: Seq<Push>, i: int) -> bool {
    payload_noted(pushes[i].after, pushes[i + 1].before, pushes[i].written, pushes[i].id)
}

/// Payloads that were pushed one behind the other.
pub open spec fn all_pushed(pushes: Seq<Push>, m: SuitManifest, target: Bank) -> bool {
    &&& forall|i: int| 0 <= i < pushes.len() ==> pushed(#[trigger] pushes[i], m, target)
    &&& forall|i: int| 0 <= i < pushes.len() - 1 ==> #[trigger] noted_at(pushes, i)
}

/// Pushing payloads from the manifest on plans for each component once and in order, and
/// takes only what has the digest that the manifest gives it. The session is complete
/// with the last component, and not before; the inventory then holds the file of every
/// component, in order.
pub proof fn law_pushing_goes_through_all_components(
    pushes: Seq<Push>,
    m: SuitManifest,
    target: Bank,
    manifest: Seq<u8>,
    i: int,
)
    requires
        all_pushed(pushes, m, target),
        0 <= i < pushes.len() <= m.components@.len(),
        pushes[0].before.session == Some(
            SessionView::AwaitingPayload { manifest, next: 0, total: m.components@.len() },
        ),
        pushes[0].before.transfer is Some,
    ensures
        ({
            let n = m.components@.len();
            let p = pushes[i];
            let files = pushes[0].before.transfer->0.files;
            let now = p.after.transfer->0;
            &&& p.plan.component == i
            &&& p.plan.total == n
            &&& p.plan.bank == target
            &&& m.components@[i].digest matches Some(d)
            &&& sha256(p.read.bytes()) == d@
            &&& p.written.last <==> i == n - 1
            &&& i == n - 1 ==> p.after.session == Some(SessionView::Complete) && now.state
                is AwaitingActivation
            &&& i < n - 1 ==> p.after.session == Some(
                SessionView::AwaitingPayload { manifest, next: (i + 1) as nat, total: n },
            )
            &&& p.after.transfer is Some
            &&& now.files.len() == files.len() + i + 1
            &&& now.files.last().sha256 == d@
            &&& now.files.last().path == file_of(m, i as nat)
            &&& now.files.drop_last() =~= (if i == 0 {
                files
            } else {
                pushes[i - 1].after.transfer->0.files
            })
        }),
    decreases i,
{
    assert(pushed(pushes[i], m, target));
    if i > 0 {
        law_pushing_goes_through_all_components(pushes, m, target, manifest, i - 1);
        assert(noted_at(pushes, i - 1));
    }
    let p = pushes[i];
    law_a_plan_is_for_the_awaited_component(p.before.session, Ok(m), target, Ok(p.plan));
    law_a_right_payload_moves_the_session_on(
        p.before,
        p.after,
        p.plan,
        Ok(p.read),
        Ok(p.written),
    );
}

/// A payload is noted under an id that nothing had before, with the bank and the file it
/// went to and its digest; nothing else is touched.
pub proof fn law_a_payload_is_noted_where_it_went(
    before: BookView,
    after: BookView,
    written: WrittenPayload,
    id: Seq<char>,
)
    requires
        before.ids_ok(),
        payload_noted(before, after, written, id),
    ensures
        !before.knows(id),
        after.parts.contains_key(id),
        after.parts[id] == (PartView::OnDisk {
            bank: written.bank,
            name: written.name@,
            inner_sha256: written.sha256@,
        }),
        forall|k: Seq<char>|
            k != id ==> (#[trigger] after.parts.contains_key(k) <==> before.parts.contains_key(k))
                && (before.parts.contains_key(k) ==> after.parts[k] == before.parts[k]),
        after.session == before.session,
        after.transfer == before.transfer,
        after.packages == before.packages,
{
    law_next_id_is_fresh(before.next_id);
}

/// The upload of a whole envelope is reported as a transfer with an id that nothing had
/// before, which is under way until it ends. Where the envelope is refused the transfer
/// has failed and nothing is kept of it. Else it is kept under a further new id, and what
/// it brought is the inventory of the transfer.
pub proof fn law_an_envelope_is_one_transfer(
    before: ComponentBackend,
    content_length: Option<u64>,
    during: ComponentBackend,
    after: BookView,
    outcome: Result<ValidatedFirmware, Unaccepted>,
    r: Result<String, Refusal>,
)
    requires
        before.book@.ids_ok(),
        during.book@ == envelope_begun(before.book@, content_length),
        envelope_finished(during, after, outcome, r),
    ensures
        ({
            let t = during.book@.transfer->0;
            &&& during.book@.transfer is Some
            &&& !before.book@.knows(t.id)
            &&& t.state is Transferring
            &&& t.files.len() == 0
            &&& t.package.len() == 0
            &&& content_length matches Some(n) ==> t.size == n
            &&& content_length is None ==> t.size == 0
            &&& during.book@.upload_phase == Some(FlashState::Transferring)
            &&& after.upload_phase is None
            &&& after.transfer matches Some(u)
            &&& u.id == t.id
            &&& r is Ok <==> outcome is Ok
            &&& outcome matches Ok(v) ==> {
                &&& u.state is Preparing
                &&& u.files == files_view(v.streamed_files@)
                &&& r->Ok_0@ != t.id
                &&& !during.book@.knows(r->Ok_0@)
                &&& after.packages =~= before.book@.packages.insert(
                    r->Ok_0@,
                    StoredPackage { validated: v, status: PackageStatus::Verified },
                )
            }
            &&& outcome is Err ==> u.state is Failed && after.packages == before.book@.packages
        }),
{
    law_next_id_is_fresh(before.book@.next_id);
    law_next_id_is_fresh(during.book@.next_id);
    assert(given_out(during.book@.transfer->0.id, during.book@.next_id));
}

/// The digest, the file and the address of a component are those that the manifest has
/// for it; there is no component behind the last.
pub proof fn law_components_are_read_in_place(m: SuitManifest, i: nat)
    ensures
        i >= m.components@.len() ==> digest_of(m, i) is None && uri_of(m, i) is None,
        i < m.components@.len() ==> {
            let c = m.components@[i as int];
            &&& digest_of(m, i) is Some <==> c.digest is Some
            &&& c.digest matches Some(d) ==> digest_of(m, i) == Some(d@)
            &&& uri_of(m, i) is Some <==> c.uri is Some
            &&& c.uri matches Some(u) ==> uri_of(m, i) == Some(u@)
        },
{
}

/// A manifest gathers piece behind piece up to a hundred kilobytes, and the piece that
/// makes it larger is refused; one that could not be read adds nothing.
pub proof fn law_a_manifest_is_gathered_piece_by_piece(
    before: Seq<u8>,
    after: Seq<u8>,
    chunk: Result<Vec<u8>, String>,
    r: Result<(), BackendError>,
)
    requires
        piece_taken(before, after, chunk, r),
    ensures
        chunk matches Ok(bytes) ==> after == before + bytes@,
        chunk is Err ==> after == before,
        r is Ok <==> chunk is Ok && before.len() + chunk->Ok_0@.len() <= 102400,
        chunk is Err ==> (r matches Err(e) && e@ is Internal),
        chunk is Ok && before.len() + chunk->Ok_0@.len() > 102400 ==> (r matches Err(e) && e@
            is InvalidRequest),
{
}

/// A payload belongs to the manifest that its session was opened with, and to none where
/// no payload is awaited.
pub proof fn law_a_payload_belongs_to_its_sessions_manifest(
    session: Option<SessionView>,
    r: Result<&Vec<u8>, BackendError>,
)
    requires
        manifest_pending(session, r),
    ensures
        r is Ok <==> session is Some && session->0 is AwaitingPayload,
        r matches Ok(bytes) ==> bytes@ == session->0->manifest,
        r matches Err(e) ==> e@ is InvalidRequest,
{
}

/// A payload that nobody waits for is a wrong request; a manifest that cannot be read, or
/// gives no digest for the component, is a failure of this node.
pub proof fn law_why_a_payload_is_not_planned(
    session: Option<SessionView>,
    decoded: Result<SuitManifest, String>,
    target: Bank,
    r: Result<PayloadPlan, BackendError>,
)
    requires
        payload_planned(session, decoded, target, r),
        r is Err,
    ensures
        r->Err_0@ is InvalidRequest <==> !(session is Some && session->0 is AwaitingPayload),
        r->Err_0@ is Internal <==> session is Some && session->0 is AwaitingPayload,
{
}

} // verus!
