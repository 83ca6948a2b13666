//! How an update is finished.
//!
//! Finishing brings in what was not pushed, seals the target bank, installs the
//! package that the transfer is about, and activates the bank that the install
//! landed on. A failed activation is rolled back. It is a conversation: each
//! answer asks for one thing to be done, and the next call says what came of it.

use crate::backend::admission::{mark_reboot_owed, marked, owes, law_marking_touches_one_set};
use crate::backend::book::{BookView, FlashSessionState, SessionView, TransferView};
use crate::backend::reconcile::{law_reconciled_is_complete, Reconcile};
use crate::backend::setup::ComponentBackend;
use crate::backend::upload::{digest_of, file_of};
use crate::banks::{Bank, FlashState, NvView, ResetKind, NUM_BANK_SETS};
use crate::error::{BackendError, BackendFault};
use crate::firmware::{copy_bytes, files_view, ImageMeta, IvdFile};
use crate::manifest_provider::ManifestType;
use crate::text::cat2;
use vstd::prelude::*;

verus! {

/// What is to be done next to finish an update.
#[derive(Debug, Clone)]
pub enum FinalizeAction {
    /// Bring in the components from `next` on that were not pushed.
    Reconcile { manifest: Vec<u8>, next: usize, total: usize },
    /// Seal the target bank.
    Seal,
    /// Hand an envelope with keys to the security module.
    Provision { envelope: Vec<u8> },
    /// Reload the security module, where something does that, and read its keys.
    LoadKeys { reload: bool },
    /// Record the install; what comes of it changes nothing.
    Install { meta: ImageMeta, sha256: [u8; 32], size: u64 },
    /// Activate a bank.
    Activate { bank: Bank },
    /// Roll the install back, because activating the bank failed.
    RollBack { why: String },
    /// Write the node's record of owed reboots.
    MarkReboot { mask: u16 },
    /// The update is finished.
    Done,
    /// The update could not be finished.
    Failed(BackendError),
}

/// What was done to finish an update, and what came of it.
#[derive(Debug)]
pub enum FinalizeEvent {
    Started,
    /// Everything was brought in that was not pushed.
    Reconciled(Result<Reconcile, BackendError>),
    Sealed(Result<(), BackendError>),
    Provisioned(Result<(), String>),
    /// The key of the software authority could be read, or not.
    KeysLoaded(bool),
    Installed,
    Activated(Result<(), String>),
    RolledBack(String),
    Marked(Result<(), String>),
}

/// What is to be done next to finish an update.
pub enum FinalizeStep {
    Reconcile { manifest: Seq<u8>, next: nat, total: nat },
    Seal,
    Provision { envelope: Seq<u8> },
    LoadKeys { reload: bool },
    Install { meta: ImageMeta, sha256: Seq<u8>, size: u64 },
    Activate { bank: Bank },
    RollBack { why: Seq<char> },
    MarkReboot { mask: u16 },
    Done,
    Failed(BackendFault),
}

impl View for FinalizeAction {
    type V = FinalizeStep;

    open spec fn view(&self) -> FinalizeStep {
        match self {
            FinalizeAction::Reconcile { manifest, next, total } => FinalizeStep::Reconcile {
                manifest: manifest@,
                next: *next as nat,
                total: *total as nat,
            },
            FinalizeAction::Seal => FinalizeStep::Seal,
            FinalizeAction::Provision { envelope } => FinalizeStep::Provision {
                envelope: envelope@,
            },
            FinalizeAction::LoadKeys { reload } => FinalizeStep::LoadKeys { reload: *reload },
            FinalizeAction::Install { meta, sha256, size } => FinalizeStep::Install {
                meta: *meta,
                sha256: sha256@,
                size: *size,
            },
            FinalizeAction::Activate { bank } => FinalizeStep::Activate { bank: *bank },
            FinalizeAction::RollBack { why } => FinalizeStep::RollBack { why: why@ },
            FinalizeAction::MarkReboot { mask } => FinalizeStep::MarkReboot { mask: *mask },
            FinalizeAction::Done => FinalizeStep::Done,
            FinalizeAction::Failed(e) => FinalizeStep::Failed(e@),
        }
    }
}

/// The state of a transfer whose bank was activated: a component with a single
/// bank runs the new firmware at once, another one after a reboot.
pub open spec fn state_when_activated(single_bank: bool) -> FlashState {
    if single_bank {
        FlashState::Activated
    } else {
        FlashState::AwaitingReboot
    }
}

/// The book after the components that were not pushed were brought in.
pub open spec fn reconciled_book(book: BookView, files: Seq<IvdFile>) -> BookView {
    BookView {
        transfer: match book.transfer {
            Some(t) => Some(TransferView { files: t.files + files_view(files), ..t }),
            None => None,
        },
        ..book
    }
}

/// The book after the update was finished.
pub open spec fn source_dropped(book: BookView) -> BookView {
    BookView { source: None, ..book }
}

impl ComponentBackend {
    /// Components that were not pushed are to be brought in: only where the banks
    /// are on disk, and some component still waits for its payload.
    pub open spec fn unpushed(self) -> Option<(Seq<u8>, nat, nat)> {
        match (self.setup.images_dir, self.book@.session) {
            (Some(_), Some(SessionView::AwaitingPayload { manifest, next, total })) => if next
                < total {
                Some((manifest, next, total))
            } else {
                None
            },
            _ => None,
        }
    }

    /// What was brought in is what was not pushed: every component that still
    /// waits for its payload, each with the digest that the manifest gives for it.
    pub open spec fn waits_for(self, c: Reconcile) -> bool {
        match self.unpushed() {
            Some(u) => c.complete(u.1, u.2),
            None => false,
        }
    }

    /// How the bank that the install landed on is activated.
    pub open spec fn activation_step(nv: NvView) -> FinalizeStep {
        match nv.boot {
            Some(boot) => FinalizeStep::Activate { bank: boot.active_bank },
            None => FinalizeStep::Failed(BackendFault::Internal("no boot state"@)),
        }
    }

    /// How the package that the transfer is about is installed.
    pub open spec fn install_step(self, nv: NvView) -> FinalizeStep {
        match self.package_in_scope() {
            None => Self::activation_step(nv),
            Some(p) => match p.validated.manifest_type {
                ManifestType::HsmKeys => match p.validated.raw_envelope {
                    Some(envelope) => if self.setup.fittings.hsm {
                        FinalizeStep::Provision { envelope: envelope@ }
                    } else {
                        Self::activation_step(nv)
                    },
                    None => Self::activation_step(nv),
                },
                ManifestType::Firmware => FinalizeStep::Install {
                    meta: p.validated.image_meta,
                    sha256: match p.validated.image_sha256 {
                        Some(s) => s@,
                        None => Seq::new(32, |i: int| 0u8),
                    },
                    size: match p.validated.image_size {
                        Some(n) => n,
                        None => 0,
                    },
                },
            },
        }
    }

    /// The component was written through and the node owes it a reboot.
    pub open spec fn leaves_a_debt(self, declared: ResetKind) -> bool {
        !self.setup.config.supports_rollback && self.reset_needed(declared) is RequiresEcuReset
    }

    /// The book and the next step after a bank was activated.
    pub open spec fn after_activation(self, nv: NvView, declared: ResetKind) -> (
        BookView,
        FinalizeStep,
    ) {
        let moved = self.book@.with_transfer_state(
            state_when_activated(self.setup.config.single_bank),
        );
        let mask = marked(nv.reboot_owed, self.setup.bank_set, true);
        if self.leaves_a_debt(declared) && mask != nv.reboot_owed {
            (moved, FinalizeStep::MarkReboot { mask })
        } else {
            (source_dropped(moved), FinalizeStep::Done)
        }
    }

    /// The book and the next step after something was done to finish an update.
    pub open spec fn finalize_next(
        self,
        event: FinalizeEvent,
        nv: NvView,
        declared: ResetKind,
    ) -> (BookView, FinalizeStep) {
        let book = self.book@;
        match event {
            FinalizeEvent::Started => match self.unpushed() {
                Some(u) => (
                    book,
                    FinalizeStep::Reconcile { manifest: u.0, next: u.1, total: u.2 },
                ),
                None => (book, self.install_step(nv)),
            },
            FinalizeEvent::Reconciled(Ok(c)) => (
                reconciled_book(book, c.done@),
                FinalizeStep::Seal,
            ),
            FinalizeEvent::Reconciled(Err(e)) => (book, FinalizeStep::Failed(e@)),
            FinalizeEvent::Sealed(Ok(_)) => (
                BookView {
                    session: Some(SessionView::Complete),
                    ..book.with_transfer_state(FlashState::AwaitingActivation)
                },
                self.install_step(nv),
            ),
            FinalizeEvent::Sealed(Err(e)) => (book, FinalizeStep::Failed(e@)),
            FinalizeEvent::Provisioned(Ok(_)) => (
                book,
                FinalizeStep::LoadKeys { reload: self.setup.fittings.reload },
            ),
            FinalizeEvent::Provisioned(Err(why)) => (
                book,
                FinalizeStep::Failed(BackendFault::Internal("HSM provision: "@ + why@)),
            ),
            FinalizeEvent::KeysLoaded(read) => if read && !self.setup.fittings.hsm_crypto {
                (
                    book,
                    FinalizeStep::Failed(
                        BackendFault::Internal(
                            "HSM provisioned but no HsmCryptoProvider attached — CEK unwrap requires crypto"@,
                        ),
                    ),
                )
            } else {
                (book, Self::activation_step(nv))
            },
            FinalizeEvent::Installed => (book, Self::activation_step(nv)),
            FinalizeEvent::Activated(Ok(_)) => self.after_activation(nv, declared),
            FinalizeEvent::Activated(Err(why)) => (book, FinalizeStep::RollBack { why: why@ }),
            FinalizeEvent::RolledBack(why) => (
                book,
                FinalizeStep::Failed(BackendFault::Internal("bank activation failed: "@ + why@)),
            ),
            FinalizeEvent::Marked(Ok(_)) => (source_dropped(book), FinalizeStep::Done),
            FinalizeEvent::Marked(Err(why)) => (
                book,
                FinalizeStep::Failed(
                    BackendFault::Internal("nv write update-session: "@ + why@),
                ),
            ),
        }
    }

    fn activate_landing(nv: &NvView) -> (r: FinalizeAction)
        ensures
            r@ == Self::activation_step(*nv),
    {
        match nv.boot {
            Some(boot) => FinalizeAction::Activate { bank: boot.active_bank },
            None => FinalizeAction::Failed(BackendError::Internal("no boot state".to_owned())),
        }
    }

    fn install_in_scope(&self, nv: &NvView) -> (r: FinalizeAction)
        requires
            self.wf(),
        ensures
            r@ == self.install_step(*nv),
    {
        let p = match self.current_package() {
            Some(p) => p,
            None => {
                return Self::activate_landing(nv);
            },
        };
        match p.validated.manifest_type {
            ManifestType::HsmKeys => match &p.validated.raw_envelope {
                Some(envelope) => {
                    if self.setup.fittings.hsm {
                        FinalizeAction::Provision { envelope: copy_bytes(envelope) }
                    } else {
                        Self::activate_landing(nv)
                    }
                },
                None => Self::activate_landing(nv),
            },
            ManifestType::Firmware => {
                let sha256: [u8; 32] = match p.validated.image_sha256 {
                    Some(s) => s,
                    None => [0u8;32],
                };
                let size: u64 = match p.validated.image_size {
                    Some(n) => n,
                    None => 0,
                };
                proof {
                    if p.validated.image_sha256 is None {
                        assert(sha256@ =~= Seq::new(32, |i: int| 0u8));
                    }
                }
                FinalizeAction::Install { meta: p.validated.image_meta.copy(), sha256, size }
            },
        }
    }

    /// Takes what was done to finish an update, and says what is to be done next.
    /// `declared` is the restart that the activator or the provider that was put
    /// in declares.
    pub fn finalize_flash(
        &mut self,
        event: FinalizeEvent,
        nv: &NvView,
        declared: ResetKind,
    ) -> (r: FinalizeAction)
        requires
            old(self).wf(),
            old(self).setup.bank_set.index() < NUM_BANK_SETS,
            event matches FinalizeEvent::Reconciled(Ok(c)) ==> old(self).waits_for(c),
        ensures
            final(self).wf(),
            final(self).same_but_book(*old(self)),
            (final(self).book@, r@) == old(self).finalize_next(event, *nv, declared),
    {
        let ghost start = self.book@;
        match event {
            FinalizeEvent::Started => {
                if self.setup.images_dir.is_some() {
                    if let Some(
                        FlashSessionState::AwaitingPayload {
                            manifest_bytes,
                            next_component,
                            total_components,
                        },
                    ) = &self.book.session {
                        if *next_component < *total_components {
                            return FinalizeAction::Reconcile {
                                manifest: copy_bytes(manifest_bytes),
                                next: *next_component,
                                total: *total_components,
                            };
                        }
                    }
                }
                self.install_in_scope(nv)
            },
            FinalizeEvent::Reconciled(outcome) => match outcome {
                Ok(c) => {
                    let files = c.done;
                    let mut more = files;
                    if let Some(t) = &mut self.book.transfer {
                        let ghost before = t.streamed_files@;
                        t.streamed_files.append(&mut more);
                        assert(files_view(t.streamed_files@) =~= files_view(before) + files_view(
                            files@,
                        ));
                    }
                    assert(self.book@ =~= reconciled_book(start, files@));
                    FinalizeAction::Seal
                },
                Err(e) => FinalizeAction::Failed(e),
            },
            FinalizeEvent::Sealed(outcome) => match outcome {
                Ok(_) => {
                    let ghost scope = self.package_in_scope();
                    self.book.set_transfer_state(FlashState::AwaitingActivation);
                    self.book.session = Some(FlashSessionState::Complete);
                    assert(self.package_in_scope() == scope);
                    self.install_in_scope(nv)
                },
                Err(e) => FinalizeAction::Failed(e),
            },
            FinalizeEvent::Provisioned(outcome) => match outcome {
                Ok(_) => FinalizeAction::LoadKeys { reload: self.setup.fittings.reload },
                Err(why) => FinalizeAction::Failed(
                    BackendError::Internal(cat2("HSM provision: ", why.as_str())),
                ),
            },
            FinalizeEvent::KeysLoaded(read) => {
                if read && !self.setup.fittings.hsm_crypto {
                    FinalizeAction::Failed(
                        BackendError::Internal(
                            "HSM provisioned but no HsmCryptoProvider attached — CEK unwrap requires crypto".to_owned(),
                        ),
                    )
                } else {
                    Self::activate_landing(nv)
                }
            },
            FinalizeEvent::Installed => Self::activate_landing(nv),
            FinalizeEvent::Activated(outcome) => match outcome {
                Ok(_) => {
                    let state = if self.setup.config.single_bank {
                        FlashState::Activated
                    } else {
                        FlashState::AwaitingReboot
                    };
                    self.book.set_transfer_state(state);
                    if !self.setup.config.supports_rollback {
                        let reset = self.reset_kind(declared);
                        if reset == ResetKind::RequiresEcuReset {
                            let mask: u16 = mark_reboot_owed(
                                nv.reboot_owed,
                                self.setup.bank_set,
                                true,
                            );
                            if mask != nv.reboot_owed {
                                return FinalizeAction::MarkReboot { mask };
                            }
                        }
                    }
                    self.book.install_source = None;
                    FinalizeAction::Done
                },
                Err(why) => FinalizeAction::RollBack { why },
            },
            FinalizeEvent::RolledBack(why) => FinalizeAction::Failed(
                BackendError::Internal(cat2("bank activation failed: ", why.as_str())),
            ),
            FinalizeEvent::Marked(outcome) => match outcome {
                Ok(_) => {
                    self.book.install_source = None;
                    FinalizeAction::Done
                },
                Err(why) => FinalizeAction::Failed(
                    BackendError::Internal(cat2("nv write update-session: ", why.as_str())),
                ),
            },
        }
    }
}

/// A step of finishing moves a transfer past the point of no return only when the
/// bank was activated.
pub proof fn law_only_activation_finalizes(
    b: ComponentBackend,
    event: FinalizeEvent,
    nv: NvView,
    declared: ResetKind,
)
    requires
        b.book@.transfer_state() is Some,
        !b.book@.transfer_state()->0.finalized(),
        ({
            let after = b.finalize_next(event, nv, declared).0.transfer_state();
            after is Some && after->0.finalized()
        }),
    ensures
        event matches FinalizeEvent::Activated(Ok(_)),
{
}

/// A failed activation is rolled back and the update fails; the transfer stays
/// where it was, and can still be given up.
pub proof fn law_failed_activation_rolls_back(
    b: ComponentBackend,
    why: String,
    nv: NvView,
    declared: ResetKind,
)
    ensures
        b.finalize_next(FinalizeEvent::Activated(Err(why)), nv, declared) == (
            b.book@,
            FinalizeStep::RollBack { why: why@ },
        ),
        b.finalize_next(FinalizeEvent::RolledBack(why), nv, declared) == (
            b.book@,
            FinalizeStep::Failed(BackendFault::Internal("bank activation failed: "@ + why@)),
        ),
{
}

/// A bank is activated only where the record of installs says that it boots next.
pub proof fn law_activates_the_bank_that_boots(
    b: ComponentBackend,
    event: FinalizeEvent,
    nv: NvView,
    declared: ResetKind,
    bank: Bank,
)
    requires
        b.finalize_next(event, nv, declared).1 == (FinalizeStep::Activate { bank }),
    ensures
        nv.boot matches Some(boot) && boot.active_bank == bank,
{
}

/// A component that is written through and needs the node to restart leaves a
/// mark that survives the loss of everything else: either the node's record owes
/// it already, or the record that is to be written does.
pub proof fn law_write_through_leaves_a_debt(b: ComponentBackend, nv: NvView, declared: ResetKind)
    requires
        b.setup.bank_set.index() < NUM_BANK_SETS,
        b.leaves_a_debt(declared),
    ensures
        match b.after_activation(nv, declared).1 {
            FinalizeStep::MarkReboot { mask } => owes(mask, b.setup.bank_set),
            _ => owes(nv.reboot_owed, b.setup.bank_set),
        },
{
    law_marking_touches_one_set(nv.reboot_owed, b.setup.bank_set, true, b.setup.bank_set);
}

/// A component that can roll back never leaves such a mark: its siblings could not
/// be updated along with it.
pub proof fn law_rollbackable_leaves_no_debt(b: ComponentBackend, nv: NvView, declared: ResetKind)
    requires
        b.setup.config.supports_rollback,
    ensures
        b.after_activation(nv, declared).1 is Done,
{
}

/// The bank is sealed only over content that the manifest promises: every component
/// that was not pushed is in the inventory of the transfer, under its file and with
/// its digest.
pub proof fn law_sealed_content_was_promised(
    b: ComponentBackend,
    c: Reconcile,
    nv: NvView,
    declared: ResetKind,
    k: int,
)
    requires
        b.waits_for(c),
        b.book@.transfer is Some,
        b.unpushed() matches Some(u) ==> 0 <= k < u.2 - u.1,
    ensures
        ({
            let u = b.unpushed()->0;
            let pushed = b.book@.transfer->0.files;
            let (book, step) = b.finalize_next(
                FinalizeEvent::Reconciled(Ok(c)),
                nv,
                declared,
            );
            let files = book.transfer->0.files;
            let i = (u.1 + k) as nat;
            &&& step is Seal
            &&& files.len() == pushed.len() + u.2 - u.1
            &&& files[pushed.len() + k].path == file_of(c.manifest, i)
            &&& digest_of(c.manifest, i) == Some(files[pushed.len() + k].sha256)
        }),
{
    law_reconciled_is_complete(c, k);
}

/// While components still wait for their payload, nothing is installed or activated
/// before they were brought in and the bank was sealed; and where either fails, the
/// update fails and the book stays as it was.
pub proof fn law_the_seal_comes_before_the_install(
    b: ComponentBackend,
    event: FinalizeEvent,
    nv: NvView,
    declared: ResetKind,
)
    requires
        b.unpushed() is Some,
        event is Started || event is Reconciled || (event matches FinalizeEvent::Sealed(Err(_))),
    ensures
        ({
            let (book, step) = b.finalize_next(event, nv, declared);
            &&& step is Reconcile || step is Seal || step is Failed
            &&& step is Seal ==> (event matches FinalizeEvent::Reconciled(Ok(_)))
            &&& step is Failed ==> book == b.book@
        }),
{
}

/// One turn of finishing an update: the component as it was, what came of the step
/// before, and the non-volatile record then.
pub struct FinalizeTurn {
    pub backend: ComponentBackend,
    pub event: FinalizeEvent,
    pub nv: NvView,
}

impl FinalizeTurn {
    /// What the turn asks for.
    pub open spec fn step(self, declared: ResetKind) -> FinalizeStep {
        self.backend.finalize_next(self.event, self.nv, declared).1
    }
}

/// The event tells what came of a step.
pub open spec fn answers(step: FinalizeStep, event: FinalizeEvent) -> bool {
    match step {
        FinalizeStep::Reconcile { .. } => event is Reconciled,
        FinalizeStep::Seal => event is Sealed,
        FinalizeStep::Provision { .. } => event is Provisioned,
        FinalizeStep::LoadKeys { .. } => event is KeysLoaded,
        FinalizeStep::Install { .. } => event is Installed,
        FinalizeStep::Activate { .. } => event is Activated,
        FinalizeStep::RollBack { .. } => event is RolledBack,
        FinalizeStep::MarkReboot { .. } => event is Marked,
        FinalizeStep::Done => false,
        FinalizeStep::Failed(_) => false,
    }
}

/// A turn follows another: it is told what came of the step that the other asked for,
/// and nothing else touched the component in between.
pub open spec fn follows(before: FinalizeTurn, turn: FinalizeTurn, declared: ResetKind) -> bool {
    &&& answers(before.step(declared), turn.event)
    &&& turn.backend.same_but_book(before.backend)
    &&& turn.backend.book@ == before.backend.finalize_next(before.event, before.nv, declared).0
}

/// The turn with a number follows the one before it.
pub open spec fn follows_at(turns: Seq<FinalizeTurn>, declared: ResetKind, i: int) -> bool {
    follows(turns[i - 1], turns[i], declared)
}

/// Turns that finish an update, one behind the other from its start on.
pub open spec fn finishing(turns: Seq<FinalizeTurn>, declared: ResetKind) -> bool {
    &&& turns.len() > 0
    &&& turns[0].event is Started
    &&& forall|i: int| 0 < i < turns.len() ==> #[trigger] follows_at(turns, declared, i)
}

/// The place of a step in the order in which an update is finished.
pub open spec fn place_of(step: FinalizeStep) -> nat {
    match step {
        FinalizeStep::Reconcile { .. } => 0,
        FinalizeStep::Seal => 1,
        FinalizeStep::Provision { .. } => 2,
        FinalizeStep::Install { .. } => 2,
        FinalizeStep::LoadKeys { .. } => 3,
        FinalizeStep::Activate { .. } => 4,
        FinalizeStep::RollBack { .. } => 5,
        FinalizeStep::MarkReboot { .. } => 5,
        FinalizeStep::Done => 6,
        FinalizeStep::Failed(_) => 6,
    }
}

/// Over a whole run the steps come in one order, and none comes twice: bring in what
/// was not pushed, seal, install, load the keys, activate, and last roll back or mark
/// the reboot.
pub proof fn law_finishing_keeps_the_order(
    turns: Seq<FinalizeTurn>,
    declared: ResetKind,
    i: int,
    j: int,
)
    requires
        finishing(turns, declared),
        0 <= i < j < turns.len(),
    ensures
        place_of(turns[i].step(declared)) < place_of(turns[j].step(declared)),
    decreases j - i,
{
    assert(follows_at(turns, declared, j));
    if i < j - 1 {
        law_finishing_keeps_the_order(turns, declared, i, j - 1);
    }
}

/// Where components still wait for their payload when an update is finished, they are
/// brought in first and the bank is sealed next. Whatever comes later comes only after
/// both went well: nothing is installed and nothing is activated before.
pub proof fn law_finishing_seals_before_it_installs(
    turns: Seq<FinalizeTurn>,
    declared: ResetKind,
    i: int,
)
    requires
        finishing(turns, declared),
        turns[0].backend.unpushed() is Some,
        0 <= i < turns.len(),
    ensures
        turns[0].step(declared) is Reconcile,
        i == 1 ==> turns[1].step(declared) is Seal || turns[1].step(declared) is Failed,
        i >= 2 ==> {
            &&& turns[1].event matches FinalizeEvent::Reconciled(Ok(_))
            &&& turns[1].step(declared) is Seal
            &&& turns[2].event is Sealed
            &&& i > 2 ==> (turns[2].event matches FinalizeEvent::Sealed(Ok(_)))
        },
        ({
            let step = turns[i].step(declared);
            &&& step is Install || step is Provision ==> i == 2
            &&& step is Activate || step is Install || step is Provision || step is LoadKeys
                || step is RollBack || step is MarkReboot || step is Done ==> {
                &&& i >= 2
                &&& turns[2].event matches FinalizeEvent::Sealed(Ok(_))
            }
        }),
{
    if i >= 1 {
        assert(follows_at(turns, declared, 1));
    }
    if i >= 2 {
        assert(follows_at(turns, declared, 2));
    }
    if i > 2 {
        assert(follows_at(turns, declared, 3));
        law_finishing_keeps_the_order(turns, declared, 2, i);
    }
}

/// A bank is activated only after the package that the transfer is about was installed,
/// where there is one to install: the step that installs comes before it in the run.
pub proof fn law_finishing_installs_before_it_activates(
    turns: Seq<FinalizeTurn>,
    declared: ResetKind,
    i: int,
)
    requires
        finishing(turns, declared),
        0 <= i < turns.len(),
        turns[i].step(declared) is Activate,
    ensures
        ({
            let first: int = if turns[0].backend.unpushed() is Some {
                2
            } else {
                0
            };
            let install = turns[first].backend.install_step(turns[first].nv);
            &&& first <= i
            &&& turns[first].step(declared) == install
            &&& if i == first {
                install is Activate
            } else {
                install is Install || install is Provision
            }
            &&& turns[0].backend.package_in_scope() matches Some(p) ==> {
                p.validated.manifest_type is Firmware ==> first < i && install is Install
            }
        }),
{
    let first: int = if turns[0].backend.unpushed() is Some {
        2
    } else {
        0
    };
    if first == 2 {
        law_finishing_seals_before_it_installs(turns, declared, i);
        assert(follows_at(turns, declared, 1));
        assert(follows_at(turns, declared, 2));
    }
    if i > first {
        assert(follows_at(turns, declared, first + 1));
        law_finishing_keeps_the_order(turns, declared, first, i);
    }
}

/// What finishing installs is the package that the transfer is about: keys go to the
/// security module in their envelope, firmware is recorded with its digest and its size.
/// Where there is nothing to install the bank that boots next is activated at once.
pub proof fn law_finishing_installs_the_package_in_scope(b: ComponentBackend, nv: NvView)
    ensures
        ({
            let step = b.install_step(nv);
            &&& b.package_in_scope() is None ==> step is Activate || step is Failed
            &&& b.package_in_scope() matches Some(p) ==> {
                let v = p.validated;
                &&& v.manifest_type is Firmware ==> {
                    &&& step matches FinalizeStep::Install { meta, sha256, size }
                    &&& meta == v.image_meta
                    &&& v.image_sha256 matches Some(d) ==> sha256 == d@
                    &&& v.image_size matches Some(n) ==> size == n
                    &&& v.image_size is None ==> size == 0
                }
                &&& v.manifest_type is HsmKeys && v.raw_envelope is Some && b.setup.fittings.hsm
                    ==> step == (FinalizeStep::Provision { envelope: v.raw_envelope->0@ })
                &&& v.manifest_type is HsmKeys && !(v.raw_envelope is Some && b.setup.fittings.hsm)
                    ==> step is Activate || step is Failed
            }
            &&& step matches FinalizeStep::Activate { bank } ==> nv.boot matches Some(boot)
                && boot.active_bank == bank
            &&& step is Failed ==> nv.boot is None
        }),
{
}

/// Finishing goes on only after success: each step that failed fails the update, but for
/// an activation, which is taken back first. After the activation a component with a
/// single bank runs the new firmware and any other waits for the reboot; the update is
/// done unless the node still has to note that it owes a reboot, and its source is
/// forgotten when it is done.
pub proof fn law_finishing_goes_on_only_after_success(
    b: ComponentBackend,
    event: FinalizeEvent,
    nv: NvView,
    declared: ResetKind,
)
    ensures
        ({
            let (book, step) = b.finalize_next(event, nv, declared);
            &&& (event matches FinalizeEvent::Reconciled(Err(_))) ==> step is Failed
            &&& (event matches FinalizeEvent::Sealed(Err(_))) ==> step is Failed
            &&& (event matches FinalizeEvent::Provisioned(Err(_))) ==> step is Failed
            &&& (event matches FinalizeEvent::Marked(Err(_))) ==> step is Failed
            &&& event is RolledBack ==> step is Failed
            &&& step is RollBack <==> (event matches FinalizeEvent::Activated(Err(_)))
            &&& step is Seal <==> (event matches FinalizeEvent::Reconciled(Ok(_)))
            &&& step is LoadKeys <==> (event matches FinalizeEvent::Provisioned(Ok(_)))
            &&& step is Reconcile ==> event is Started
            &&& event is Installed && nv.boot is Some ==> step is Activate
            &&& event matches FinalizeEvent::KeysLoaded(read) ==> (step is Failed <==> (read
                && !b.setup.fittings.hsm_crypto) || nv.boot is None)
            &&& step is Done ==> book.source is None && ((event matches FinalizeEvent::Activated(
                Ok(_),
            )) || (event matches FinalizeEvent::Marked(Ok(_))))
            &&& (event matches FinalizeEvent::Marked(Ok(_))) ==> step is Done
            &&& (event matches FinalizeEvent::Activated(Ok(_))) ==> {
                &&& step is Done || step is MarkReboot
                &&& step is MarkReboot ==> !b.setup.config.supports_rollback && declared
                    is RequiresEcuReset
                &&& b.book@.transfer matches Some(t) ==> {
                    &&& book.transfer matches Some(now)
                    &&& now.id == t.id
                    &&& b.setup.config.single_bank ==> now.state is Activated
                    &&& !b.setup.config.single_bank ==> now.state is AwaitingReboot
                }
            }
            &&& (event matches FinalizeEvent::Sealed(Ok(_))) ==> {
                &&& book.session == Some(SessionView::Complete)
                &&& b.book@.transfer is Some ==> book.transfer is Some && book.transfer->0.state
                    is AwaitingActivation
            }
            &&& book.packages == b.book@.packages
        }),
{
}

/// Components are brought in exactly where the banks are on disk and the session still
/// waits for a payload: from the one that it waits for, up to the last.
pub proof fn law_unpushed_components_are_those_awaited(b: ComponentBackend)
    ensures
        b.unpushed() is Some <==> {
            &&& b.setup.images_dir is Some
            &&& b.book@.session matches Some(SessionView::AwaitingPayload { manifest, next, total })
            &&& next < total
        },
        b.unpushed() matches Some(u) ==> b.book@.session == Some(
            SessionView::AwaitingPayload { manifest: u.0, next: u.1, total: u.2 },
        ),
{
}

} // verus!
