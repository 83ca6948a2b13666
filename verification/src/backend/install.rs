//! How an update starts, and how a package that is there already is installed.

use crate::backend::admission::{StartAction, StartEvent};
use crate::backend::book::{
    BookView, FlashSessionState, FlashTransferState, SessionView, StoredPackage, TransferView,
};
use crate::backend::setup::ComponentBackend;
use crate::banks::{bank_dir_name, Bank, FlashState, NvView};
use crate::error::{BackendError, BackendFault};
use crate::firmware::{copy_bytes, ImageMeta};
use crate::idmap::IdMap;
use crate::logs::entry::text_option;
use crate::manifest_provider::ManifestType;
use crate::paths::{join_path, joined};
use crate::text::{cat2, cat4, decimal, decimal_text};
use vstd::prelude::*;

verus! {

/// The book after an update was started: whatever was left of earlier ones is
/// gone, and the next upload is the manifest.
pub open spec fn flash_started(book: BookView) -> BookView {
    BookView {
        session: Some(SessionView::AwaitingManifest),
        transfer: Some(
            TransferView {
                id: book.fresh_id(),
                package: Seq::empty(),
                state: FlashState::Transferring,
                size: 0,
                files: Seq::empty(),
            },
        ),
        packages: Map::empty(),
        parts: Map::empty(),
        describe: Map::empty(),
        ..book.id_taken()
    }
}

/// What is to be done next to install a package that is there already.
#[derive(Debug, Clone)]
pub enum InstallAction {
    /// Raise the floor of the clock to the time that the manifest was signed at.
    RaiseTime { iat: u64 },
    /// Hand an envelope with keys to the security module.
    Provision { envelope: Vec<u8> },
    /// Read the keys of the security module.
    LoadKeys,
    /// Record that keys were installed.
    RecordKeys { meta: ImageMeta },
    /// Raise the lowest security version of a bank.
    RaiseFloor { bank: Bank, floor: u32 },
    /// Record the install of an image that was written while it came in.
    RecordStreamed { meta: ImageMeta, sha256: [u8; 32], size: u64 },
    /// Record the install of the image of the package.
    RecordBuffered { meta: ImageMeta },
    /// Write the image of the package to a file.
    WriteImage { bank: Bank, path: String },
    /// Activate a bank.
    Activate { bank: Bank },
    /// Roll the install back, because activating the bank failed.
    RollBack { why: String },
    /// Seal the target bank; the install is reported under the id.
    Seal { id: String },
    /// The package is installed, and is reported under the id.
    Done(String),
    Failed(BackendError),
}

/// What was done to install a package, and what came of it.
#[derive(Debug)]
pub enum InstallEvent {
    Started,
    TimeRaised,
    Provisioned(Result<(), String>),
    /// The key of the software authority could be read, or not.
    KeysLoaded(bool),
    KeysRecorded(Result<(), OtaError>),
    FloorRaised(Result<(), String>),
    /// The install was recorded, and on which bank it landed.
    Recorded(Result<Bank, OtaError>),
    ImageWritten { bank: Bank, outcome: Result<(), String> },
    Activated(Result<(), String>),
    RolledBack(String),
    Sealed { id: String, outcome: Result<(), BackendError> },
}

/// What is to be done next to install a package that is there already.
pub enum InstallStep {
    RaiseTime { iat: u64 },
    Provision { envelope: Seq<u8> },
    LoadKeys,
    RecordKeys { meta: ImageMeta },
    RaiseFloor { bank: Bank, floor: u32 },
    RecordStreamed { meta: ImageMeta, sha256: Seq<u8>, size: u64 },
    RecordBuffered { meta: ImageMeta },
    WriteImage { bank: Bank, path: Seq<char> },
    Activate { bank: Bank },
    RollBack { why: Seq<char> },
    Seal { id: Seq<char> },
    Done(Seq<char>),
    Failed(BackendFault),
}

impl View for InstallAction {
    type V = InstallStep;

    open spec fn view(&self) -> InstallStep {
        match self {
            InstallAction::RaiseTime { iat } => InstallStep::RaiseTime { iat: *iat },
            InstallAction::Provision { envelope } => InstallStep::Provision {
                envelope: envelope@,
            },
            InstallAction::LoadKeys => InstallStep::LoadKeys,
            InstallAction::RecordKeys { meta } => InstallStep::RecordKeys { meta: *meta },
            InstallAction::RaiseFloor { bank, floor } => InstallStep::RaiseFloor {
                bank: *bank,
                floor: *floor,
            },
            InstallAction::RecordStreamed { meta, sha256, size } => InstallStep::RecordStreamed {
                meta: *meta,
                sha256: sha256@,
                size: *size,
            },
            InstallAction::RecordBuffered { meta } => InstallStep::RecordBuffered { meta: *meta },
            InstallAction::WriteImage { bank, path } => InstallStep::WriteImage {
                bank: *bank,
                path: path@,
            },
            InstallAction::Activate { bank } => InstallStep::Activate { bank: *bank },
            InstallAction::RollBack { why } => InstallStep::RollBack { why: why@ },
            InstallAction::Seal { id } => InstallStep::Seal { id: id@ },
            InstallAction::Done(id) => InstallStep::Done(id@),
            InstallAction::Failed(e) => InstallStep::Failed(e@),
        }
    }
}

/// The size that an image is reported with.
pub open spec fn reported_size(p: StoredPackage) -> u64 {
    match p.validated.image_size {
        Some(n) => n,
        None => p.validated.image_data@.len() as u64,
    }
}

/// The book after the image of a package was installed: the transfer is about
/// that package, and waits to be activated.
pub open spec fn image_in_place(book: BookView, package: Seq<char>, size: u64) -> BookView {
    match book.transfer {
        Some(t) => BookView {
            transfer: Some(
                TransferView { package, state: FlashState::AwaitingActivation, size, ..t },
            ),
            ..book
        },
        None => new_transfer(book, package, size),
    }
}

/// The book with a new transfer that waits to be activated.
pub open spec fn new_transfer(book: BookView, package: Seq<char>, size: u64) -> BookView {
    BookView {
        transfer: Some(
            TransferView {
                id: book.fresh_id(),
                package,
                state: FlashState::AwaitingActivation,
                size,
                files: Seq::empty(),
            },
        ),
        ..book.id_taken()
    }
}

/// Why the record of installs refuses.
#[derive(Debug, Clone)]
pub enum OtaError {
    InTrial,
    AlreadyCommitted,
    NotInTrial,
    SecurityVersionTooLow { image: u32, floor: u32 },
    Other(String),
}

/// What a refusal by the record of installs is answered with.
pub open spec fn ota_fault(e: OtaError) -> BackendFault {
    match e {
        OtaError::InTrial => BackendFault::Busy("bank set is in trial mode"@),
        OtaError::AlreadyCommitted => BackendFault::Busy("already committed"@),
        OtaError::NotInTrial => BackendFault::Busy("not in trial mode"@),
        OtaError::SecurityVersionTooLow { image, floor } => BackendFault::InvalidRequest(
            "security version "@ + decimal_text(image as nat) + " below anti-rollback floor "@
                + decimal_text(floor as nat),
        ),
        OtaError::Other(why) => BackendFault::Internal(why@),
    }
}

/// What a refusal by the record of installs is answered with.
pub fn map_ota_error(e: OtaError) -> (r: BackendError)
    ensures
        r@ == ota_fault(e),
{
    match e {
        OtaError::InTrial => BackendError::Busy("bank set is in trial mode".to_owned()),
        OtaError::AlreadyCommitted => BackendError::Busy("already committed".to_owned()),
        OtaError::NotInTrial => BackendError::Busy("not in trial mode".to_owned()),
        OtaError::SecurityVersionTooLow { image, floor } => {
            let i = decimal(image as u64);
            let f = decimal(floor as u64);
            BackendError::InvalidRequest(
                cat4(
                    "security version ",
                    i.as_str(),
                    " below anti-rollback floor ",
                    f.as_str(),
                ),
            )
        },
        OtaError::Other(why) => BackendError::Internal(why),
    }
}

/// The lowest security version that a bank is to be given, where a version raises
/// it: a bank without a record has none to raise.
pub open spec fn floor_raise(nv: NvView, bank: Bank, fw_secver: u32) -> Option<u32> {
    match nv.meta(bank) {
        Some(m) => if fw_secver > m.min_security_ver {
            Some(fw_secver)
        } else {
            None
        },
        None => None,
    }
}

/// Raising the lowest security version never lowers it.
pub proof fn law_floor_never_falls(nv: NvView, bank: Bank, fw_secver: u32)
    ensures
        floor_raise(nv, bank, fw_secver) matches Some(f) ==> f > nv.security_floor(bank) && f
            == fw_secver,
{
}

impl ComponentBackend {
    /// Takes what was done to start an update, and says what is to be done next:
    /// an update that is admitted has its bank wiped, and then starts.
    pub fn start_flash(&mut self, event: StartEvent, nv: &NvView) -> (r: StartAction)
        requires
            old(self).wf(),
            old(self).book.next_id < u64::MAX,
        ensures
            final(self).wf(),
            final(self).same_but_book(*old(self)),
            (final(self).book@, r@) == old(self).start_next(
                event,
                *nv,
                flash_started(old(self).book@),
            ),
    {
        match event {
            StartEvent::Asked { gate, target } => {
                return match self.give_leave(nv, &gate, target) {
                    Ok(leave) => StartAction::Prepare(leave),
                    Err(e) => StartAction::Failed(e),
                };
            },
            StartEvent::Prepared { leave, outcome } => {
                if let Err(why) = outcome {
                    return StartAction::Failed(BackendError::Internal(why));
                }
            },
        }
        let ghost start = self.book@;
        self.book.session = Some(FlashSessionState::AwaitingManifest);
        self.book.packages = IdMap::new();
        self.book.uploaded_parts = IdMap::new();
        self.book.manifest_describe = IdMap::new();
        assert(self.book@.parts =~= Map::empty());
        assert(self.book@.describe =~= Map::empty());
        let id = self.book.take_id();
        self.book.transfer = Some(
            FlashTransferState {
                transfer_id: id.clone(),
                package_id: String::new(),
                state: FlashState::Transferring,
                image_size: 0,
                streamed_files: Vec::new(),
            },
        );
        assert(self.book@.transfer->0.files =~= Seq::empty());
        assert(self.book@.transfer->0.package =~= Seq::empty());
        assert(self.book@ =~= flash_started(start));
        StartAction::Started(id)
    }

    fn open_transfer(&mut self, package_id: &str, size: u64) -> (id: String)
        requires
            old(self).wf(),
            old(self).book.next_id < u64::MAX,
        ensures
            final(self).wf(),
            final(self).same_but_book(*old(self)),
            id@ == old(self).book@.fresh_id(),
            final(self).book@ == new_transfer(old(self).book@, package_id@, size),
    {
        let ghost start = self.book@;
        let id = self.book.take_id();
        self.book.transfer = Some(
            FlashTransferState {
                transfer_id: id.clone(),
                package_id: package_id.to_owned(),
                state: FlashState::AwaitingActivation,
                image_size: size,
                streamed_files: Vec::new(),
            },
        );
        assert(self.book@.transfer->0.files =~= Seq::empty());
        assert(self.book@ =~= new_transfer(start, package_id@, size));
        id
    }

    fn image_installed(&mut self, package_id: &str, size: u64) -> (id: String)
        requires
            old(self).wf(),
            old(self).book.next_id < u64::MAX,
        ensures
            final(self).wf(),
            final(self).same_but_book(*old(self)),
            final(self).book@ == image_in_place(old(self).book@, package_id@, size),
            final(self).book@.transfer matches Some(t) && id@ == t.id,
    {
        let ghost start = self.book@;
        if let Some(t) = &mut self.book.transfer {
            t.package_id = package_id.to_owned();
            t.state = FlashState::AwaitingActivation;
            t.image_size = size;
            let id = t.transfer_id.clone();
            assert(self.book@ =~= image_in_place(start, package_id@, size));
            return id;
        }
        self.open_transfer(package_id, size)
    }

    /// The lowest security version that the running bank is to be given by a
    /// package without an image.
    pub fn raised_floor(&self, nv: &NvView, fw_secver: u32) -> (r: Option<u32>)
        ensures
            r == floor_raise(*nv, self.running_bank, fw_secver),
    {
        match nv.meta_of(self.running_bank) {
            Some(m) => if fw_secver > m.min_security_ver {
                Some(fw_secver)
            } else {
                None
            },
            None => None,
        }
    }

    /// Where the image of a package is written, if the banks are on disk.
    pub open spec fn image_path(self, bank: Bank) -> Option<Seq<char>> {
        match self.setup.images_dir {
            Some(dir) => Some(
                joined(
                    joined(joined(dir@, self.setup.bank_spec.dir_name@), bank.dir_name()),
                    "rootfs.img"@,
                ),
            ),
            None => None,
        }
    }

    fn path_of_image(&self, bank: Bank) -> (r: Option<String>)
        ensures
            text_option(r) == self.image_path(bank),
    {
        match &self.setup.images_dir {
            Some(dir) => {
                let set_dir = join_path(dir.as_str(), self.setup.bank_spec.dir_name.as_str());
                let bank_dir = join_path(set_dir.as_str(), bank_dir_name(bank));
                Some(join_path(bank_dir.as_str(), "rootfs.img"))
            },
            None => None,
        }
    }

    /// The book and the first step of installing a package, by what it holds: keys,
    /// an image that came with it, an image that was written while it came in, or
    /// nothing but a security version. The last changes no bank, and the id is all
    /// there is.
    pub open spec fn install_begins(self, p: StoredPackage, nv: NvView) -> (
        BookView,
        InstallStep,
    ) {
        let book = self.book@;
        let meta = p.validated.image_meta;
        if p.validated.manifest_type is HsmKeys {
            match p.validated.raw_envelope {
                None => (
                    book,
                    InstallStep::Failed(
                        BackendFault::Internal("HSM key manifest missing raw envelope"@),
                    ),
                ),
                Some(envelope) => if self.setup.fittings.hsm {
                    (book, InstallStep::Provision { envelope: envelope@ })
                } else {
                    (
                        book,
                        InstallStep::Failed(
                            BackendFault::Internal(
                                "no HSM provider configured for key provisioning"@,
                            ),
                        ),
                    )
                },
            }
        } else if p.validated.image_data@.len() > 0 {
            (book, InstallStep::RecordBuffered { meta })
        } else {
            match p.validated.image_sha256 {
                Some(sha256) => (
                    book,
                    InstallStep::RecordStreamed {
                        meta,
                        sha256: sha256@,
                        size: match p.validated.image_size {
                            Some(n) => n,
                            None => 0,
                        },
                    },
                ),
                None => match floor_raise(nv, self.running_bank, meta.fw_secver) {
                    Some(floor) => (
                        book,
                        InstallStep::RaiseFloor { bank: self.running_bank, floor },
                    ),
                    None => (book.id_taken(), InstallStep::Done(book.fresh_id())),
                },
            }
        }
    }

    /// The book and the next step after something was done to install a package.
    pub open spec fn install_next(
        self,
        package_id: Seq<char>,
        event: InstallEvent,
        nv: NvView,
    ) -> (BookView, InstallStep) {
        let book = self.book@;
        if !book.packages.contains_key(package_id) {
            (book, InstallStep::Failed(BackendFault::EntityNotFound(package_id)))
        } else {
            let p = book.packages[package_id];
            match event {
                InstallEvent::Started => match p.validated.signing_time_secs {
                    Some(iat) => if self.setup.fittings.hsm {
                        (book, InstallStep::RaiseTime { iat })
                    } else {
                        self.install_begins(p, nv)
                    },
                    None => self.install_begins(p, nv),
                },
                InstallEvent::TimeRaised => self.install_begins(p, nv),
                InstallEvent::Provisioned(Ok(_)) => (book, InstallStep::LoadKeys),
                InstallEvent::Provisioned(Err(why)) => (
                    book,
                    InstallStep::Failed(BackendFault::Internal("HSM provision: "@ + why@)),
                ),
                InstallEvent::KeysLoaded(read) => if read && !self.setup.fittings.hsm_crypto {
                    (
                        book,
                        InstallStep::Failed(
                            BackendFault::Internal(
                                "HSM provisioned but no HsmCryptoProvider attached — CEK unwrap requires crypto"@,
                            ),
                        ),
                    )
                } else {
                    (book, InstallStep::RecordKeys { meta: p.validated.image_meta })
                },
                InstallEvent::KeysRecorded(Ok(_)) => (
                    new_transfer(book, package_id, 0),
                    InstallStep::Seal { id: book.fresh_id() },
                ),
                InstallEvent::KeysRecorded(Err(e)) => (book, InstallStep::Failed(ota_fault(e))),
                InstallEvent::FloorRaised(Ok(_)) => (
                    book.id_taken(),
                    InstallStep::Done(book.fresh_id()),
                ),
                InstallEvent::FloorRaised(Err(why)) => (
                    book,
                    InstallStep::Failed(BackendFault::Internal("NV write: "@ + why@)),
                ),
                InstallEvent::Recorded(Err(e)) => (book, InstallStep::Failed(ota_fault(e))),
                InstallEvent::Recorded(Ok(bank)) => match self.image_path(bank) {
                    Some(path) => if p.validated.image_data@.len() > 0 {
                        (book, InstallStep::WriteImage { bank, path })
                    } else {
                        (book, InstallStep::Activate { bank })
                    },
                    None => (book, InstallStep::Activate { bank }),
                },
                InstallEvent::ImageWritten { bank, outcome: Ok(_) } => (
                    book,
                    InstallStep::Activate { bank },
                ),
                InstallEvent::ImageWritten { bank, outcome: Err(why) } => (
                    book,
                    InstallStep::Failed(
                        BackendFault::Internal(
                            "failed to write image to "@ + (match self.image_path(bank) {
                                Some(path) => path,
                                None => Seq::empty(),
                            }) + ": "@ + why@,
                        ),
                    ),
                ),
                InstallEvent::Activated(Ok(_)) => {
                    let after = image_in_place(book, package_id, reported_size(p));
                    (after, InstallStep::Seal { id: after.transfer->0.id })
                },
                InstallEvent::Activated(Err(why)) => (book, InstallStep::RollBack { why: why@ }),
                InstallEvent::RolledBack(why) => (
                    book,
                    InstallStep::Failed(
                        BackendFault::Internal("bank activation failed: "@ + why@),
                    ),
                ),
                InstallEvent::Sealed { id, outcome: Ok(_) } => (book, InstallStep::Done(id@)),
                InstallEvent::Sealed { id, outcome: Err(e) } => (book, InstallStep::Failed(e@)),
            }
        }
    }

    fn begin_install(&mut self, package_id: &str, nv: &NvView) -> (r: InstallAction)
        requires
            old(self).wf(),
            old(self).book.next_id < u64::MAX,
            old(self).book@.packages.contains_key(package_id@),
        ensures
            final(self).wf(),
            final(self).same_but_book(*old(self)),
            (final(self).book@, r@) == old(self).install_begins(
                old(self).book@.packages[package_id@],
                *nv,
            ),
    {
        let p = match self.book.packages.get(package_id) {
            Some(p) => p,
            None => {
                return InstallAction::Failed(BackendError::EntityNotFound(package_id.to_owned()));
            },
        };
        if p.validated.manifest_type == ManifestType::HsmKeys {
            return match &p.validated.raw_envelope {
                None => InstallAction::Failed(
                    BackendError::Internal("HSM key manifest missing raw envelope".to_owned()),
                ),
                Some(envelope) => {
                    if self.setup.fittings.hsm {
                        InstallAction::Provision { envelope: copy_bytes(envelope) }
                    } else {
                        InstallAction::Failed(
                            BackendError::Internal(
                                "no HSM provider configured for key provisioning".to_owned(),
                            ),
                        )
                    }
                },
            };
        }
        let meta = p.validated.image_meta.copy();
        if p.validated.image_data.len() > 0 {
            return InstallAction::RecordBuffered { meta };
        }
        if let Some(sha256) = p.validated.image_sha256 {
            let size: u64 = match p.validated.image_size {
                Some(n) => n,
                None => 0,
            };
            return InstallAction::RecordStreamed { meta, sha256, size };
        }
        match self.raised_floor(nv, meta.fw_secver) {
            Some(floor) => InstallAction::RaiseFloor { bank: self.running_bank, floor },
            None => InstallAction::Done(self.book.take_id()),
        }
    }

    /// Takes what was done to install a package that is there already, and says
    /// what is to be done next.
    pub fn install_package(&mut self, package_id: &str, event: InstallEvent, nv: &NvView) -> (r:
        InstallAction)
        requires
            old(self).wf(),
            old(self).book.next_id < u64::MAX,
        ensures
            final(self).wf(),
            final(self).same_but_book(*old(self)),
            (final(self).book@, r@) == old(self).install_next(package_id@, event, *nv),
    {
        let p = match self.book.packages.get(package_id) {
            Some(p) => p,
            None => {
                return InstallAction::Failed(BackendError::EntityNotFound(package_id.to_owned()));
            },
        };
        match event {
            InstallEvent::Started => match p.validated.signing_time_secs {
                Some(iat) => if self.setup.fittings.hsm {
                    InstallAction::RaiseTime { iat }
                } else {
                    self.begin_install(package_id, nv)
                },
                None => self.begin_install(package_id, nv),
            },
            InstallEvent::TimeRaised => self.begin_install(package_id, nv),
            InstallEvent::Provisioned(outcome) => match outcome {
                Ok(_) => InstallAction::LoadKeys,
                Err(why) => InstallAction::Failed(
                    BackendError::Internal(cat2("HSM provision: ", why.as_str())),
                ),
            },
            InstallEvent::KeysLoaded(read) => {
                if read && !self.setup.fittings.hsm_crypto {
                    InstallAction::Failed(
                        BackendError::Internal(
                            "HSM provisioned but no HsmCryptoProvider attached — CEK unwrap requires crypto".to_owned(),
                        ),
                    )
                } else {
                    InstallAction::RecordKeys { meta: p.validated.image_meta.copy() }
                }
            },
            InstallEvent::KeysRecorded(outcome) => match outcome {
                Ok(_) => InstallAction::Seal { id: self.open_transfer(package_id, 0) },
                Err(e) => InstallAction::Failed(map_ota_error(e)),
            },
            InstallEvent::FloorRaised(outcome) => match outcome {
                Ok(_) => InstallAction::Done(self.book.take_id()),
                Err(why) => InstallAction::Failed(
                    BackendError::Internal(cat2("NV write: ", why.as_str())),
                ),
            },
            InstallEvent::Recorded(outcome) => match outcome {
                Err(e) => InstallAction::Failed(map_ota_error(e)),
                Ok(bank) => {
                    if p.validated.image_data.len() > 0 {
                        if let Some(path) = self.path_of_image(bank) {
                            return InstallAction::WriteImage { bank, path };
                        }
                    }
                    InstallAction::Activate { bank }
                },
            },
            InstallEvent::ImageWritten { bank, outcome } => match outcome {
                Ok(_) => InstallAction::Activate { bank },
                Err(why) => {
                    let path = match self.path_of_image(bank) {
                        Some(path) => path,
                        None => {
                            let none = String::new();
                            assert(none@ =~= Seq::empty());
                            none
                        },
                    };
                    InstallAction::Failed(
                        BackendError::Internal(
                            cat4("failed to write image to ", path.as_str(), ": ", why.as_str()),
                        ),
                    )
                },
            },
            InstallEvent::Activated(outcome) => match outcome {
                Ok(_) => {
                    let size: u64 = match p.validated.image_size {
                        Some(n) => n,
                        None => p.validated.image_data.len() as u64,
                    };
                    InstallAction::Seal { id: self.image_installed(package_id, size) }
                },
                Err(why) => InstallAction::RollBack { why },
            },
            InstallEvent::RolledBack(why) => InstallAction::Failed(
                BackendError::Internal(cat2("bank activation failed: ", why.as_str())),
            ),
            InstallEvent::Sealed { id, outcome } => match outcome {
                Ok(_) => InstallAction::Done(id),
                Err(e) => InstallAction::Failed(e),
            },
        }
    }
}

/// A package whose bank could not be activated is rolled back, and is never
/// reported as installed.
pub proof fn law_failed_install_rolls_back(
    b: ComponentBackend,
    package_id: Seq<char>,
    why: String,
    nv: NvView,
)
    requires
        b.book@.packages.contains_key(package_id),
    ensures
        b.install_next(package_id, InstallEvent::Activated(Err(why)), nv) == (
            b.book@,
            InstallStep::RollBack { why: why@ },
        ),
        b.install_next(package_id, InstallEvent::RolledBack(why), nv).1 is Failed,
{
}

/// A package without an image changes no bank: it is never recorded as an install
/// and never activated.
pub proof fn law_floor_only_changes_no_bank(b: ComponentBackend, p: StoredPackage, nv: NvView)
    requires
        p.validated.manifest_type is Firmware,
        p.validated.image_data@.len() == 0,
        p.validated.image_sha256 is None,
    ensures
        b.install_begins(p, nv).1 is RaiseFloor || b.install_begins(p, nv).1 is Done,
        b.install_begins(p, nv).0.transfer == b.book@.transfer,
{
}

/// An update that was just started has no package: nothing that was uploaded
/// before it can be installed by it.
pub proof fn law_started_update_forgets_packages(book: BookView, id: Seq<char>)
    ensures
        !flash_started(book).packages.contains_key(id),
        !flash_started(book).parts.contains_key(id),
        flash_started(book).transfer_state() == Some(FlashState::Transferring),
{
}

/// An update that was started waits for its manifest, and is reported as a transfer with
/// an id that nothing had before, under way and with nothing in it yet.
pub proof fn law_a_started_update_waits_for_its_manifest(book: BookView)
    requires
        book.ids_ok(),
    ensures
        ({
            let now = flash_started(book);
            &&& now.session == Some(SessionView::AwaitingManifest)
            &&& now.transfer matches Some(t)
            &&& !book.knows(t.id)
            &&& t.id == book.fresh_id()
            &&& t.state is Transferring
            &&& t.package.len() == 0
            &&& t.files.len() == 0
            &&& t.size == 0
            &&& now.describe =~= Map::empty()
            &&& now.packages =~= Map::empty()
            &&& now.parts =~= Map::empty()
            &&& now.source == book.source
            &&& now.next_id == book.next_id + 1
        }),
{
    crate::backend::book::law_next_id_is_fresh(book.next_id);
}

/// What installing a package begins with goes by what the package holds. Keys go to the
/// security module, and fail without it or without their envelope. An image that came
/// with the package is recorded as such, and one that was written while it came in with
/// its digest and its size. A package with neither raises the security floor of the
/// running bank where its version is higher, and is done where it is not.
pub proof fn law_a_package_is_installed_by_what_it_holds(
    b: ComponentBackend,
    p: StoredPackage,
    nv: NvView,
)
    ensures
        ({
            let (book, step) = b.install_begins(p, nv);
            let v = p.validated;
            let keys = v.manifest_type is HsmKeys;
            let record = nv.meta(b.running_bank);
            let higher = record is Some && v.image_meta.fw_secver > record->0.min_security_ver;
            &&& step is Provision <==> keys && v.raw_envelope is Some && b.setup.fittings.hsm
            &&& step matches InstallStep::Provision { envelope } ==> envelope == v.raw_envelope->0@
            &&& step is Failed <==> keys && !(v.raw_envelope is Some && b.setup.fittings.hsm)
            &&& step is RecordBuffered <==> !keys && v.image_data@.len() > 0
            &&& step is RecordStreamed <==> !keys && v.image_data@.len() == 0 && v.image_sha256
                is Some
            &&& step matches InstallStep::RecordStreamed { meta, sha256, size } ==> {
                &&& meta == v.image_meta
                &&& sha256 == v.image_sha256->0@
                &&& v.image_size matches Some(n) ==> size == n
            }
            &&& step matches InstallStep::RecordBuffered { meta } ==> meta == v.image_meta
            &&& step is RaiseFloor <==> !keys && v.image_data@.len() == 0 && v.image_sha256 is None
                && higher
            &&& step matches InstallStep::RaiseFloor { bank, floor } ==> bank == b.running_bank
                && floor == v.image_meta.fw_secver
            &&& step is Done <==> !keys && v.image_data@.len() == 0 && v.image_sha256 is None
                && !higher
            &&& step matches InstallStep::Done(id) ==> id == b.book@.fresh_id()
            &&& !(step is Done) ==> book == b.book@
        }),
{
}

/// One turn of installing a package: the component as it was, what came of the step
/// before, and the non-volatile record then.
pub struct InstallTurn {
    pub backend: ComponentBackend,
    pub event: InstallEvent,
    pub nv: NvView,
}

impl InstallTurn {
    /// The book after the turn, and what it asks for.
    pub open spec fn next(self, package_id: Seq<char>) -> (BookView, InstallStep) {
        self.backend.install_next(package_id, self.event, self.nv)
    }
}

/// The event tells what came of a step.
pub open spec fn install_answers(step: InstallStep, event: InstallEvent) -> bool {
    match step {
        InstallStep::RaiseTime { .. } => event is TimeRaised,
        InstallStep::Provision { .. } => event is Provisioned,
        InstallStep::LoadKeys => event is KeysLoaded,
        InstallStep::RecordKeys { .. } => event is KeysRecorded,
        InstallStep::RaiseFloor { .. } => event is FloorRaised,
        InstallStep::RecordStreamed { .. } => event is Recorded,
        InstallStep::RecordBuffered { .. } => event is Recorded,
        InstallStep::WriteImage { bank: b, .. } => event matches InstallEvent::ImageWritten {
            bank,
            outcome,
        } && bank == b,
        InstallStep::Activate { .. } => event is Activated,
        InstallStep::RollBack { .. } => event is RolledBack,
        InstallStep::Seal { id: i } => event matches InstallEvent::Sealed { id, outcome } && id@ == i,
        InstallStep::Done(_) => false,
        InstallStep::Failed(_) => false,
    }
}

/// The turn with a number follows the one before it.
pub open spec fn install_follows(turns: Seq<InstallTurn>, package_id: Seq<char>, i: int) -> bool {
    &&& install_answers(turns[i - 1].next(package_id).1, turns[i].event)
    &&& turns[i].backend.same_but_book(turns[i - 1].backend)
    &&& turns[i].backend.book@ == turns[i - 1].next(package_id).0
}

/// Turns that install a package, one behind the other from its start on.
pub open spec fn installing(turns: Seq<InstallTurn>, package_id: Seq<char>) -> bool {
    &&& turns.len() > 0
    &&& turns[0].event is Started
    &&& forall|i: int| 0 < i < turns.len() ==> #[trigger] install_follows(turns, package_id, i)
}

/// The place of a step in the order in which a package is installed.
pub open spec fn install_place(step: InstallStep) -> nat {
    match step {
        InstallStep::RaiseTime { .. } => 0,
        InstallStep::Provision { .. } => 1,
        InstallStep::RaiseFloor { .. } => 1,
        InstallStep::RecordStreamed { .. } => 1,
        InstallStep::RecordBuffered { .. } => 1,
        InstallStep::LoadKeys => 2,
        InstallStep::WriteImage { .. } => 2,
        InstallStep::RecordKeys { .. } => 3,
        InstallStep::Activate { .. } => 3,
        InstallStep::RollBack { .. } => 4,
        InstallStep::Seal { .. } => 4,
        InstallStep::Done(_) => 5,
        InstallStep::Failed(_) => 5,
    }
}

/// Over a whole run the steps come in one order, and none comes twice: the clock, then
/// the record of the install, then the image or the keys, then the activation, and last
/// the seal or the way back.
pub proof fn law_installing_keeps_the_order(
    turns: Seq<InstallTurn>,
    package_id: Seq<char>,
    i: int,
    j: int,
)
    requires
        installing(turns, package_id),
        0 <= i < j < turns.len(),
    ensures
        install_place(turns[i].next(package_id).1) < install_place(turns[j].next(package_id).1),
    decreases j - i,
{
    assert(install_follows(turns, package_id, j));
    if i < j - 1 {
        law_installing_keeps_the_order(turns, package_id, i, j - 1);
    }
}

/// What a turn asks for follows from what went well before it. A bank is activated only
/// where an install was recorded on it, or its image was written to it; an image is
/// written only where an install was recorded and the package brought one. The bank is
/// sealed only after it was activated or the keys were recorded, and the package is
/// installed only after the seal, or after the floor where it has no image. A step that
/// failed ends the install, but for an activation, which is taken back.
pub proof fn law_installing_goes_on_only_after_success(turn: InstallTurn, package_id: Seq<char>)
    ensures
        ({
            let (book, step) = turn.next(package_id);
            let e = turn.event;
            let there = turn.backend.book@.packages.contains_key(package_id);
            let p = turn.backend.book@.packages[package_id];
            &&& !there ==> step == InstallStep::Failed(BackendFault::EntityNotFound(package_id))
            &&& step matches InstallStep::RaiseTime { iat } ==> e is Started
                && turn.backend.setup.fittings.hsm && p.validated.signing_time_secs == Some(iat)
            &&& there && e is Started && turn.backend.setup.fittings.hsm
                && p.validated.signing_time_secs is Some ==> step is RaiseTime
            &&& step matches InstallStep::Activate { bank } ==> (e matches InstallEvent::Recorded(
                Ok(on),
            ) && on == bank) || (e matches InstallEvent::ImageWritten { bank: on, outcome: Ok(_) }
                && on == bank)
            &&& step matches InstallStep::WriteImage { bank, path } ==> {
                &&& e matches InstallEvent::Recorded(Ok(on))
                &&& on == bank
                &&& p.validated.image_data@.len() > 0
                &&& turn.backend.setup.images_dir is Some
            }
            &&& there && (e matches InstallEvent::Recorded(Ok(_))) && p.validated.image_data@.len()
                > 0 && turn.backend.setup.images_dir is Some ==> step is WriteImage
            &&& step is LoadKeys <==> there && (e matches InstallEvent::Provisioned(Ok(_)))
            &&& step is Seal <==> there && ((e matches InstallEvent::Activated(Ok(_))) || (e matches
                InstallEvent::KeysRecorded(Ok(_))))
            &&& step is RollBack <==> there && (e matches InstallEvent::Activated(Err(_)))
            &&& step is RecordKeys ==> e is KeysLoaded
            &&& step matches InstallStep::Done(id) ==> {
                ||| (e matches InstallEvent::Sealed { id: sealed, outcome: Ok(_) } && sealed@ == id)
                ||| (e matches InstallEvent::FloorRaised(Ok(_)))
                ||| e is Started
                ||| e is TimeRaised
            }
            &&& there ==> {
                &&& (e matches InstallEvent::Recorded(Err(_))) ==> step is Failed
                &&& (e matches InstallEvent::ImageWritten { bank, outcome: Err(_) }) ==> step
                    is Failed
                &&& (e matches InstallEvent::Provisioned(Err(_))) ==> step is Failed
                &&& (e matches InstallEvent::KeysRecorded(Err(_))) ==> step is Failed
                &&& (e matches InstallEvent::FloorRaised(Err(_))) ==> step is Failed
                &&& (e matches InstallEvent::Sealed { id, outcome: Err(_) }) ==> step is Failed
                &&& e is RolledBack ==> step is Failed
            }
            &&& step is Failed ==> book == turn.backend.book@
        }),
{
}

/// An activated install is reported as a transfer about its package that waits to be
/// activated, with the size of its image: the transfer that there was, or a new one with
/// an id that nothing had before. The seal is reported under that transfer.
pub proof fn law_an_install_is_reported(turn: InstallTurn, package_id: Seq<char>)
    requires
        turn.backend.book@.ids_ok(),
        turn.next(package_id).1 is Seal,
    ensures
        ({
            let (book, step) = turn.next(package_id);
            let before = turn.backend.book@;
            let v = before.packages[package_id].validated;
            &&& book.transfer matches Some(t)
            &&& step == (InstallStep::Seal { id: t.id })
            &&& t.package == package_id
            &&& t.state is AwaitingActivation
            &&& turn.event is Activated ==> {
                &&& v.image_size matches Some(n) ==> t.size == n
                &&& v.image_size is None ==> t.size == v.image_data@.len() as u64
                &&& before.transfer matches Some(old_one) ==> t.id == old_one.id && t.files
                    == old_one.files
                &&& before.transfer is None ==> !before.knows(t.id)
            }
            &&& turn.event is KeysRecorded ==> !before.knows(t.id) && t.size == 0
            &&& book.packages == before.packages
        }),
{
    crate::backend::book::law_next_id_is_fresh(turn.backend.book@.next_id);
}

/// A record of installs that is busy with a trial, or has nothing to confirm, says so; a
/// version that is too low is the caller's fault; anything else is the node's.
pub proof fn law_refusals_of_the_record(e: OtaError)
    ensures
        ota_fault(e) is Busy <==> e is InTrial || e is AlreadyCommitted || e is NotInTrial,
        ota_fault(e) is InvalidRequest <==> e is SecurityVersionTooLow,
        ota_fault(e) is Internal <==> e is Other,
        e matches OtaError::Other(why) ==> ota_fault(e) == BackendFault::Internal(why@),
{
}

/// The floor of a bank is raised exactly where it has a record and the version is higher.
pub proof fn law_the_floor_is_raised_by_higher_versions(nv: NvView, bank: Bank, fw_secver: u32)
    ensures
        floor_raise(nv, bank, fw_secver) is Some <==> nv.meta(bank) is Some && fw_secver
            > nv.security_floor(bank),
{
}

/// An image is written exactly where the banks are on disk, and each bank has its own
/// directory for it.
pub proof fn law_images_go_to_disk(b: ComponentBackend, bank: Bank)
    ensures
        b.image_path(bank) is Some <==> b.setup.images_dir is Some,
        b.image_path(bank) matches Some(path) ==> path == joined(
            joined(
                joined(b.setup.images_dir->0@, b.setup.bank_spec.dir_name@),
                if bank is A {
                    "bank_a"@
                } else {
                    "bank_b"@
                },
            ),
            "rootfs.img"@,
        ),
{
}

/// Keys that were provisioned are recorded, unless they could be read and nothing is
/// attached that could use them; a floor that was raised, and a seal that was set, end
/// the install.
pub proof fn law_keys_need_what_uses_them(turn: InstallTurn, package_id: Seq<char>)
    requires
        turn.backend.book@.packages.contains_key(package_id),
    ensures
        ({
            let (book, step) = turn.next(package_id);
            let e = turn.event;
            let v = turn.backend.book@.packages[package_id].validated;
            &&& step is RecordKeys <==> (e matches InstallEvent::KeysLoaded(read) && (!read
                || turn.backend.setup.fittings.hsm_crypto))
            &&& step matches InstallStep::RecordKeys { meta } ==> meta == v.image_meta
            &&& (e matches InstallEvent::KeysLoaded(read) && read)
                && !turn.backend.setup.fittings.hsm_crypto ==> step is Failed
            &&& (e matches InstallEvent::FloorRaised(Ok(_))) ==> step == InstallStep::Done(
                turn.backend.book@.fresh_id(),
            )
            &&& e matches InstallEvent::Sealed { id, outcome: Ok(_) } ==> step == InstallStep::Done(
                id@,
            )
            &&& (e matches InstallEvent::ImageWritten { bank, outcome: Ok(_) }) ==> step is Activate
        }),
{
}

/// What an install fails with: the refusal of the record of installs, the reason that
/// sealing gave, that there is no such package, or else a failure of this node.
pub proof fn law_an_install_fails_for_a_reason(turn: InstallTurn, package_id: Seq<char>)
    requires
        turn.next(package_id).1 is Failed,
    ensures
        ({
            let why = turn.next(package_id).1->Failed_0;
            let e = turn.event;
            if !turn.backend.book@.packages.contains_key(package_id) {
                why == BackendFault::EntityNotFound(package_id)
            } else {
                match e {
                    InstallEvent::Recorded(Err(refusal)) => why == ota_fault(refusal),
                    InstallEvent::KeysRecorded(Err(refusal)) => why == ota_fault(refusal),
                    InstallEvent::Sealed { id, outcome: Err(refusal) } => why == refusal@,
                    _ => why is Internal,
                }
            }
        }),
{
}

} // verus!
