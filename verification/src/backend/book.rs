//! What the engine remembers of an update while it goes on.

use crate::banks::{Bank, FlashState};
use crate::firmware::{files_view, FileView, IvdFile};
use crate::idmap::IdMap;
use crate::logs::entry::{text_option, texts};
use crate::manifest_provider::ValidatedFirmware;
use crate::text::{decimal, decimal_text, lemma_decimal_text_is_one_to_one};
use vstd::prelude::*;

verus! {

/// How far an uploaded package has come.
#[derive(Debug, Clone, Copy, PartialEq, Eq, Structural)]
pub enum PackageStatus {
    Pending,
    Verified,
}

/// A package that was uploaded and found good.
#[derive(Debug, Clone)]
pub struct StoredPackage {
    pub validated: ValidatedFirmware,
    pub status: PackageStatus,
}

/// What the catalogue says of an uploaded manifest.
#[derive(Debug, Clone)]
pub struct ManifestDescribeMeta {
    /// A name for people.
    pub update_name: Option<String>,
    /// What the manifest says of itself.
    pub notes: Option<String>,
    /// The components that the manifest names, as paths.
    pub component_paths: Vec<String>,
}

/// What the catalogue says of an uploaded manifest.
pub struct DescribeView {
    pub update_name: Option<Seq<char>>,
    pub notes: Option<Seq<char>>,
    pub component_paths: Seq<Seq<char>>,
}

impl View for ManifestDescribeMeta {
    type V = DescribeView;

    open spec fn view(&self) -> DescribeView {
        DescribeView {
            update_name: text_option(self.update_name),
            notes: text_option(self.notes),
            component_paths: texts(self.component_paths@),
        }
    }
}

/// Where an uploaded part went.
#[derive(Debug, Clone)]
pub enum UploadedPartLocation {
    /// The manifest, and the digest of it as it came over the wire.
    Manifest { upload_sha256: [u8; 32] },
    /// A payload in a bank, and the digest of it as it was written.
    OnDisk { bank: Bank, name: String, inner_sha256: [u8; 32] },
}

/// Where an uploaded part went.
pub enum PartView {
    Manifest { upload_sha256: Seq<u8> },
    OnDisk { bank: Bank, name: Seq<char>, inner_sha256: Seq<u8> },
}

impl View for UploadedPartLocation {
    type V = PartView;

    open spec fn view(&self) -> PartView {
        match self {
            UploadedPartLocation::Manifest { upload_sha256 } => PartView::Manifest {
                upload_sha256: upload_sha256@,
            },
            UploadedPartLocation::OnDisk { bank, name, inner_sha256 } => PartView::OnDisk {
                bank: *bank,
                name: name@,
                inner_sha256: inner_sha256@,
            },
        }
    }
}

/// The order in which an update is uploaded: the manifest first, then the payload
/// of each component in turn.
#[derive(Debug, Clone)]
pub enum FlashSessionState {
    /// The next upload is the manifest.
    AwaitingManifest,
    /// The next upload is the payload of a component.
    AwaitingPayload { manifest_bytes: Vec<u8>, next_component: usize, total_components: usize },
    /// Everything is there.
    Complete,
}

/// The order in which an update is uploaded.
pub enum SessionView {
    AwaitingManifest,
    AwaitingPayload { manifest: Seq<u8>, next: nat, total: nat },
    Complete,
}

impl View for FlashSessionState {
    type V = SessionView;

    open spec fn view(&self) -> SessionView {
        match self {
            FlashSessionState::AwaitingManifest => SessionView::AwaitingManifest,
            FlashSessionState::AwaitingPayload {
                manifest_bytes,
                next_component,
                total_components,
            } => SessionView::AwaitingPayload {
                manifest: manifest_bytes@,
                next: *next_component as nat,
                total: *total_components as nat,
            },
            FlashSessionState::Complete => SessionView::Complete,
        }
    }
}

/// The transfer that an update is reported under.
#[derive(Debug, Clone)]
pub struct FlashTransferState {
    pub transfer_id: String,
    pub package_id: String,
    pub state: FlashState,
    pub image_size: u64,
    /// The files that were written to the target bank, in the order in which they
    /// came.
    pub streamed_files: Vec<IvdFile>,
}

/// The transfer that an update is reported under.
pub struct TransferView {
    pub id: Seq<char>,
    pub package: Seq<char>,
    pub state: FlashState,
    pub size: u64,
    pub files: Seq<FileView>,
}

impl View for FlashTransferState {
    type V = TransferView;

    open spec fn view(&self) -> TransferView {
        TransferView {
            id: self.transfer_id@,
            package: self.package_id@,
            state: self.state,
            size: self.image_size,
            files: files_view(self.streamed_files@),
        }
    }
}

/// Where an update that pulls its payloads gets them from.
#[derive(Debug, Clone)]
pub struct InstallSource {
    pub cas_base_url: String,
    pub trust_anchor: Vec<u8>,
    /// The campaign that the update belongs to.
    pub session_id: Option<[u8; 32]>,
}

/// What the engine remembers of an update while it goes on.
#[derive(Debug, Clone)]
pub struct FlashBook {
    pub session: Option<FlashSessionState>,
    pub transfer: Option<FlashTransferState>,
    pub upload_phase: Option<FlashState>,
    pub install_source: Option<InstallSource>,
    pub packages: IdMap<StoredPackage>,
    pub uploaded_parts: IdMap<UploadedPartLocation>,
    pub manifest_describe: IdMap<ManifestDescribeMeta>,
    /// Manifests that were uploaded apart from their payloads.
    pub manifests: IdMap<Vec<u8>>,
    /// Where payloads that were uploaded apart from their manifest were put.
    pub payloads: IdMap<String>,
    /// The number that the next id is made of.
    pub next_id: u64,
}

/// What the engine remembers of an update.
#[verifier::ext_equal]
pub struct BookView {
    pub session: Option<SessionView>,
    pub transfer: Option<TransferView>,
    pub upload_phase: Option<FlashState>,
    pub source: Option<InstallSource>,
    pub packages: Map<Seq<char>, StoredPackage>,
    pub parts: Map<Seq<char>, PartView>,
    pub describe: Map<Seq<char>, DescribeView>,
    pub manifests: Map<Seq<char>, Seq<u8>>,
    pub payloads: Map<Seq<char>, Seq<char>>,
    pub next_id: nat,
}

impl BookView {
    /// The id that the next thing gets.
    pub open spec fn fresh_id(self) -> Seq<char> {
        decimal_text(self.next_id)
    }

    /// The next thing has got its id.
    pub open spec fn id_taken(self) -> BookView {
        BookView { next_id: self.next_id + 1, ..self }
    }

    /// The state of the transfer, where there is one.
    pub open spec fn transfer_state(self) -> Option<FlashState> {
        match self.transfer {
            Some(t) => Some(t.state),
            None => None,
        }
    }

    /// The transfer, where there is one, has moved on.
    pub open spec fn with_transfer_state(self, state: FlashState) -> BookView {
        BookView {
            transfer: match self.transfer {
                Some(t) => Some(TransferView { state, ..t }),
                None => None,
            },
            ..self
        }
    }

    /// Nothing of an update is left but the record of where its parts went and
    /// the count of ids.
    pub open spec fn cleared(self) -> BookView {
        BookView {
            session: None,
            transfer: None,
            upload_phase: None,
            source: None,
            packages: Map::empty(),
            describe: Map::empty(),
            manifests: Map::empty(),
            payloads: Map::empty(),
            ..self
        }
    }
}

/// Every key is an id that was given out before the next one.
pub open spec fn ids_given_out<V>(m: Map<Seq<char>, V>, next: nat) -> bool {
    forall|k: Seq<char>| #[trigger] m.contains_key(k) ==> given_out(k, next)
}

/// An id that was given out before the next one.
pub open spec fn given_out(id: Seq<char>, next: nat) -> bool {
    exists|n: nat| n < next && id == #[trigger] decimal_text(n)
}

/// The id that comes next has never been given out.
pub proof fn law_next_id_is_fresh(next: nat)
    ensures
        !given_out(decimal_text(next), next),
        given_out(decimal_text(next), next + 1),
        forall|id: Seq<char>| #[trigger] given_out(id, next) ==> given_out(id, next + 1),
{
    if given_out(decimal_text(next), next) {
        let n = choose|n: nat| n < next && decimal_text(next) == #[trigger] decimal_text(n);
        lemma_decimal_text_is_one_to_one(n, next);
    }
    assert forall|id: Seq<char>| #[trigger] given_out(id, next) implies given_out(id, next + 1) by {
        let n = choose|n: nat| n < next && id == #[trigger] decimal_text(n);
        assert(n < next + 1 && id == decimal_text(n));
    }
}

impl View for FlashBook {
    type V = BookView;

    open spec fn view(&self) -> BookView {
        BookView {
            session: match self.session {
                Some(s) => Some(s@),
                None => None,
            },
            transfer: match self.transfer {
                Some(t) => Some(t@),
                None => None,
            },
            upload_phase: self.upload_phase,
            source: self.install_source,
            packages: self.packages@,
            parts: self.uploaded_parts@.map_values(|p: UploadedPartLocation| p@),
            describe: self.manifest_describe@.map_values(|d: ManifestDescribeMeta| d@),
            manifests: self.manifests@.map_values(|m: Vec<u8>| m@),
            payloads: self.payloads@.map_values(|p: String| p@),
            next_id: self.next_id as nat,
        }
    }
}

impl FlashBook {
    /// No id is held twice, and every id that is held was given out.
    pub open spec fn wf(self) -> bool {
        &&& self.packages.wf()
        &&& self.uploaded_parts.wf()
        &&& self.manifest_describe.wf()
        &&& self.manifests.wf()
        &&& self.payloads.wf()
        &&& self@.ids_ok()
    }

    /// An empty book; the first id is `1`.
    pub fn new() -> (b: FlashBook)
        ensures
            b.wf(),
            b@ == blank_book(),
    {
        let b = FlashBook {
            session: None,
            transfer: None,
            upload_phase: None,
            install_source: None,
            packages: IdMap::new(),
            uploaded_parts: IdMap::new(),
            manifest_describe: IdMap::new(),
            manifests: IdMap::new(),
            payloads: IdMap::new(),
            next_id: 1,
        };
        proof {
            assert(b@.parts =~= Map::empty());
            assert(b@.describe =~= Map::empty());
            assert(b@.manifests =~= Map::empty());
            assert(b@.payloads =~= Map::empty());
        }
        b
    }

    /// A new id, other than every id before it.
    pub fn take_id(&mut self) -> (id: String)
        requires
            old(self).wf(),
            old(self).next_id < u64::MAX,
        ensures
            final(self).wf(),
            id@ == old(self)@.fresh_id(),
            final(self)@ == old(self)@.id_taken(),
            final(self).next_id == old(self).next_id + 1,
            !old(self)@.knows(id@),
    {
        let id = decimal(self.next_id);
        proof {
            law_next_id_is_fresh(self.next_id as nat);
        }
        self.next_id = self.next_id + 1;
        id
    }

    /// Forgets the update.
    pub fn clear(&mut self)
        requires
            old(self).wf(),
        ensures
            final(self).wf(),
            final(self)@ == old(self)@.cleared(),
            final(self).next_id == old(self).next_id,
    {
        self.session = None;
        self.transfer = None;
        self.upload_phase = None;
        self.install_source = None;
        self.packages = IdMap::new();
        self.manifests = IdMap::new();
        self.payloads = IdMap::new();
        self.manifest_describe = IdMap::new();
        assert(self@ =~= old(self)@.cleared());
    }

    /// Moves the transfer on, where there is one.
    pub fn set_transfer_state(&mut self, state: FlashState)
        requires
            old(self).wf(),
        ensures
            final(self).wf(),
            final(self)@ == old(self)@.with_transfer_state(state),
            final(self).next_id == old(self).next_id,
    {
        match &mut self.transfer {
            Some(t) => {
                t.state = state;
            },
            None => {},
        }
        assert(self@ =~= old(self)@.with_transfer_state(state));
    }

    /// Keeps a package under an id that was given out.
    pub fn keep_package(&mut self, id: &str, package: StoredPackage)
        requires
            old(self).wf(),
            given_out(id@, old(self).next_id as nat),
        ensures
            final(self).wf(),
            final(self)@ == (BookView {
                packages: old(self)@.packages.insert(id@, package),
                ..old(self)@
            }),
            final(self).next_id == old(self).next_id,
    {
        self.packages.insert(id, package);
    }

    /// Keeps a record of where a part went under an id that was given out.
    pub fn keep_part(&mut self, id: &str, part: UploadedPartLocation)
        requires
            old(self).wf(),
            given_out(id@, old(self).next_id as nat),
        ensures
            final(self).wf(),
            final(self)@ == (BookView {
                parts: old(self)@.parts.insert(id@, part@),
                ..old(self)@
            }),
            final(self).next_id == old(self).next_id,
    {
        self.uploaded_parts.insert(id, part);
        assert(self@.parts =~= old(self)@.parts.insert(id@, part@));
    }

    /// Keeps what the catalogue says under an id that was given out.
    pub fn keep_describe(&mut self, id: &str, meta: ManifestDescribeMeta)
        requires
            old(self).wf(),
            given_out(id@, old(self).next_id as nat),
        ensures
            final(self).wf(),
            final(self)@ == (BookView {
                describe: old(self)@.describe.insert(id@, meta@),
                ..old(self)@
            }),
            final(self).next_id == old(self).next_id,
    {
        self.manifest_describe.insert(id, meta);
        assert(self@.describe =~= old(self)@.describe.insert(id@, meta@));
    }

    /// Keeps a manifest under an id that was given out.
    pub fn keep_manifest(&mut self, id: &str, raw: Vec<u8>)
        requires
            old(self).wf(),
            given_out(id@, old(self).next_id as nat),
        ensures
            final(self).wf(),
            final(self)@ == (BookView {
                manifests: old(self)@.manifests.insert(id@, raw@),
                ..old(self)@
            }),
            final(self).next_id == old(self).next_id,
    {
        self.manifests.insert(id, raw);
        assert(self@.manifests =~= old(self)@.manifests.insert(id@, raw@));
    }

    /// Keeps the place of a payload under an id that was given out.
    pub fn keep_payload(&mut self, id: &str, path: String)
        requires
            old(self).wf(),
            given_out(id@, old(self).next_id as nat),
        ensures
            final(self).wf(),
            final(self)@ == (BookView {
                payloads: old(self)@.payloads.insert(id@, path@),
                ..old(self)@
            }),
            final(self).next_id == old(self).next_id,
    {
        self.payloads.insert(id, path);
        assert(self@.payloads =~= old(self)@.payloads.insert(id@, path@));
    }
}

impl BookView {
    /// Every id that is held was given out.
    pub open spec fn ids_ok(self) -> bool {
        &&& ids_given_out(self.packages, self.next_id)
        &&& ids_given_out(self.parts, self.next_id)
        &&& ids_given_out(self.describe, self.next_id)
        &&& ids_given_out(self.manifests, self.next_id)
        &&& ids_given_out(self.payloads, self.next_id)
    }

    /// Something is held under the id.
    pub open spec fn knows(self, id: Seq<char>) -> bool {
        ||| self.packages.contains_key(id)
        ||| self.parts.contains_key(id)
        ||| self.describe.contains_key(id)
        ||| self.manifests.contains_key(id)
        ||| self.payloads.contains_key(id)
    }
}

/// An empty book.
pub open spec fn blank_book() -> BookView {
    BookView {
        session: None,
        transfer: None,
        upload_phase: None,
        source: None,
        packages: Map::empty(),
        parts: Map::empty(),
        describe: Map::empty(),
        manifests: Map::empty(),
        payloads: Map::empty(),
        next_id: 1,
    }
}

/// Forgetting an update leaves nothing of it but where its parts went, and ids go on
/// from where they were.
pub proof fn law_a_cleared_book_holds_no_update(b: BookView, id: Seq<char>)
    ensures
        b.cleared().session is None,
        b.cleared().transfer is None,
        b.cleared().upload_phase is None,
        b.cleared().source is None,
        !b.cleared().packages.contains_key(id),
        !b.cleared().describe.contains_key(id),
        !b.cleared().manifests.contains_key(id),
        !b.cleared().payloads.contains_key(id),
        b.cleared().parts == b.parts,
        b.cleared().next_id == b.next_id,
        b.cleared().fresh_id() == b.fresh_id(),
{
}

/// A new book holds nothing, and its first id is `1`.
pub proof fn law_a_new_book_is_blank(id: Seq<char>)
    ensures
        blank_book().cleared() == blank_book(),
        !blank_book().knows(id),
        blank_book().fresh_id() == "1"@,
{
    assert(blank_book().cleared() =~= blank_book());
    reveal_strlit("1");
    assert(decimal_text(1) =~= "1"@);
}

/// Moving the transfer on changes its state and nothing else, and starts none.
pub proof fn law_a_transfer_moves_on(b: BookView, state: FlashState)
    ensures
        b.with_transfer_state(state).transfer is Some <==> b.transfer is Some,
        b.transfer matches Some(t) ==> b.with_transfer_state(state).transfer == Some(
            TransferView { id: t.id, package: t.package, state, size: t.size, files: t.files },
        ),
        b.transfer is Some ==> b.with_transfer_state(state).transfer_state() == Some(state),
        b.with_transfer_state(state).session == b.session,
        b.with_transfer_state(state).packages == b.packages,
        b.with_transfer_state(state).parts == b.parts,
        b.with_transfer_state(state).upload_phase == b.upload_phase,
        b.with_transfer_state(state).next_id == b.next_id,
{
}

} // verus!
