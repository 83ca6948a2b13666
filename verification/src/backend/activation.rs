//! From a finished update to a confirmed one: validation, reset, confirmation and
//! the way back.

use crate::backend::admission::NodeResolution;
use crate::backend::book::{BookView, FlashTransferState, TransferView};
use crate::backend::finalize::state_when_activated;
use crate::backend::setup::ComponentBackend;
use crate::banks::{Bank, BankBootState, BankSet, FlashState, NvView, ResetKind, NUM_BANK_SETS};
use crate::error::{refused, BackendError, BackendFault};
use crate::firmware::FirmwareIdentity;
use crate::logs::entry::text_option;
use crate::text::cat2;
use vstd::prelude::*;

verus! {

// ---------------------------------------------------------------------------
// Validation
// ---------------------------------------------------------------------------

/// A step that a caller takes with a transfer.
pub enum TransferStep {
    Validate,
    Invalidate,
    Activate,
}

/// Where a step takes a transfer, if the transfer can take it.
pub open spec fn stepped(step: TransferStep, state: FlashState, single_bank: bool) -> Option<
    FlashState,
> {
    match step {
        TransferStep::Validate => if state is AwaitingActivation || state is Validated
            || state is AwaitingReboot {
            Some(FlashState::Validated)
        } else {
            None
        },
        TransferStep::Invalidate => if state is Validated {
            Some(FlashState::AwaitingActivation)
        } else {
            None
        },
        TransferStep::Activate => if state is Validated {
            Some(state_when_activated(single_bank))
        } else {
            None
        },
    }
}

/// What a step is refused with in a state that it cannot be taken in.
pub open spec fn step_refusal(step: TransferStep, state: FlashState) -> Seq<char> {
    match step {
        TransferStep::Validate =>
        "validate() requires AwaitingActivation, Validated, or AwaitingReboot, got "@
            + state.label(),
        TransferStep::Invalidate => "invalidate() requires Validated, got "@ + state.label(),
        TransferStep::Activate => "activate() requires Validated, got "@ + state.label(),
    }
}

/// What came of a step: it was refused and nothing changed, or the transfer moved.
pub open spec fn step_taken(
    step: TransferStep,
    before: ComponentBackend,
    after: ComponentBackend,
    r: Result<(), BackendError>,
) -> bool {
    &&& after.same_but_book(before)
    &&& match before.book@.transfer_state() {
        None => after.book@ == before.book@ && refused(
            r,
            BackendFault::EntityNotFound("No flash transfer in progress"@),
        ),
        Some(state) => match stepped(step, state, before.setup.config.single_bank) {
            None => after.book@ == before.book@ && refused(
                r,
                BackendFault::InvalidRequest(step_refusal(step, state)),
            ),
            Some(to) => r is Ok && after.book@ == before.book@.with_transfer_state(to),
        },
    }
}

/// Validating and taking it back leaves a transfer that waited to be activated
/// where it was; validating twice is validating once.
pub proof fn law_validation_can_be_taken_back(single_bank: bool)
    ensures
        stepped(TransferStep::Validate, FlashState::AwaitingActivation, single_bank) == Some(
            FlashState::Validated,
        ),
        stepped(TransferStep::Invalidate, FlashState::Validated, single_bank) == Some(
            FlashState::AwaitingActivation,
        ),
        stepped(TransferStep::Validate, FlashState::Validated, single_bank) == Some(
            FlashState::Validated,
        ),
{
}

/// A transfer gets past the point of no return by a caller's step only when it was
/// validated.
pub proof fn law_only_validated_activates(step: TransferStep, state: FlashState, single_bank: bool)
    requires
        stepped(step, state, single_bank) is Some,
        stepped(step, state, single_bank)->0.finalized(),
    ensures
        state is Validated,
        step is Activate,
{
}

// ---------------------------------------------------------------------------
// Reset
// ---------------------------------------------------------------------------

/// What a reset begins with.
#[derive(Debug, Clone, Copy, PartialEq, Eq, Structural)]
pub struct ResetPlan {
    /// The boot state to write: one more boot of the trial is used up.
    pub write_boot: Option<BankBootState>,
    /// The service for virtual machines is to be asked whether the guest runs.
    pub probe: bool,
}

/// What the service for virtual machines is told.
#[derive(Debug, Clone, Copy, PartialEq, Eq, Structural)]
pub struct VmNotice {
    /// The guest ran and is to be restarted; else it is to be started.
    pub restart: bool,
    pub bank: Option<Bank>,
}

// ---------------------------------------------------------------------------
// Confirmation and the way back
// ---------------------------------------------------------------------------

/// How a trial ends.
#[derive(Debug, Clone, Copy, PartialEq, Eq, Structural)]
pub enum Ending {
    Commit,
    RollBack,
}

/// What is to be done next to end a trial.
#[derive(Debug, Clone)]
pub enum EndingAction {
    /// The provider of banks is to confirm the active bank.
    Commit,
    /// The provider of banks is to go back to the other bank.
    RollBack,
    /// The node is to do what the end of the update asks of it.
    Resolve(NodeResolution),
    /// The served values are to be read anew.
    Refresh,
    /// The guest is to be let enrol; what comes of it changes nothing.
    ArmEnrollment,
    Done,
    Failed(BackendError),
}

/// What was done to end a trial, and what came of it.
#[derive(Debug)]
pub enum EndingEvent {
    Started,
    Provider(Result<(), String>),
    Resolved(Result<(), String>),
    Refreshed,
    Armed,
}

/// What is to be done next to end a trial.
pub enum EndingStep {
    Commit,
    RollBack,
    Resolve(NodeResolution),
    Refresh,
    ArmEnrollment,
    Done,
    Failed(BackendFault),
}

impl View for EndingAction {
    type V = EndingStep;

    open spec fn view(&self) -> EndingStep {
        match self {
            EndingAction::Commit => EndingStep::Commit,
            EndingAction::RollBack => EndingStep::RollBack,
            EndingAction::Resolve(n) => EndingStep::Resolve(*n),
            EndingAction::Refresh => EndingStep::Refresh,
            EndingAction::ArmEnrollment => EndingStep::ArmEnrollment,
            EndingAction::Done => EndingStep::Done,
            EndingAction::Failed(e) => EndingStep::Failed(e@),
        }
    }
}

/// The book after a trial ended.
pub open spec fn trial_ended(book: BookView) -> BookView {
    BookView { transfer: None, ..book }
}

// ---------------------------------------------------------------------------
// What is reported
// ---------------------------------------------------------------------------

/// What is reported of a transfer. All of it has been transferred.
#[derive(Debug, Clone)]
pub struct FlashStatus {
    pub transfer_id: String,
    pub package_id: String,
    pub state: FlashState,
    pub bytes_transferred: u64,
    pub bytes_total: u64,
    pub blocks_transferred: u32,
    pub blocks_total: u32,
    pub percent: u8,
    pub error: Option<String>,
}

/// A report says what a transfer is.
pub open spec fn reports(s: FlashStatus, t: TransferView) -> bool {
    &&& s.transfer_id@ == t.id
    &&& s.package_id@ == t.package
    &&& s.state == t.state
    &&& s.bytes_transferred == t.size
    &&& s.bytes_total == t.size
    &&& s.blocks_transferred == 1
    &&& s.blocks_total == 1
    &&& s.percent == 100
    &&& s.error is None
}

/// How far the component's update has come, and between which versions.
#[derive(Debug, Clone)]
pub struct ActivationState {
    pub supports_rollback: bool,
    pub state: FlashState,
    pub active_version: Option<String>,
    pub previous_version: Option<String>,
    pub reset_kind: ResetKind,
}

/// The version of a bank: shown only where the bank has a record and its manifest
/// gives a version that is not empty.
pub open spec fn shown_version(has_record: bool, identity: Option<FirmwareIdentity>) -> Option<
    Seq<char>,
> {
    match identity {
        Some(i) => match i.version {
            Some(v) => if has_record && v@.len() > 0 {
                Some(v@)
            } else {
                None
            },
            None => None,
        },
        None => None,
    }
}

/// What asking for the state of a transfer gave.
pub open spec fn status_given(
    book: BookView,
    transfer_id: Seq<char>,
    r: Result<FlashStatus, BackendError>,
) -> bool {
    match book.transfer {
        Some(t) => match r {
            Ok(s) => reports(s, t),
            Err(_) => false,
        },
        None => refused(r, BackendFault::EntityNotFound(transfer_id)),
    }
}

/// What asking for all transfers gave.
pub open spec fn transfers_given(book: BookView, r: Seq<FlashStatus>) -> bool {
    match book.transfer {
        Some(t) => r.len() == 1 && reports(r[0], t),
        None => r.len() == 0,
    }
}

/// What beginning a reset did.
pub open spec fn reset_begun(
    before: ComponentBackend,
    after: ComponentBackend,
    nv: NvView,
    r: ResetPlan,
) -> bool {
    &&& after == (ComponentBackend { running_bank: before.bank_after_reset(nv), ..before })
    &&& r.write_boot == before.boot_after_reset(nv)
    &&& r.probe == (!before.setup.config.single_bank && !before.disabled(nv)
        && before.setup.vm_service_addr is Some)
}

/// What ending a reset did.
pub open spec fn reset_ended(
    before: ComponentBackend,
    after: ComponentBackend,
    nv: NvView,
    was_running: bool,
    r: Option<VmNotice>,
) -> bool {
    &&& after.same_but_book(before)
    &&& after.book@ == before.book@.with_transfer_state(FlashState::Activated)
    &&& r == (if before.setup.vm_service_addr is Some && !before.disabled(nv) {
        Some(VmNotice { restart: was_running, bank: Some(before.running_bank) })
    } else {
        None
    })
}

/// What is reported of how far the update of a component has come.
pub open spec fn activation_reported(
    b: ComponentBackend,
    nv: NvView,
    running: Option<FirmwareIdentity>,
    other: Option<FirmwareIdentity>,
    declared: ResetKind,
    r: Result<ActivationState, BackendError>,
) -> bool {
    match nv.boot {
        None => refused(r, BackendFault::Internal("no boot state"@)),
        Some(boot) => match r {
            Ok(a) => {
                &&& a.supports_rollback == b.setup.config.supports_rollback
                &&& a.state == b.activation_now(nv, boot)
                &&& text_option(a.active_version) == shown_version(
                    nv.meta(b.running_bank) is Some,
                    running,
                )
                &&& text_option(a.previous_version) == shown_version(
                    nv.meta(b.running_bank.sibling()) is Some,
                    other,
                )
                &&& a.reset_kind == b.reset_needed(declared)
            },
            Err(_) => false,
        },
    }
}

/// The identity behind a reference.
pub open spec fn identity_of(i: Option<&FirmwareIdentity>) -> Option<FirmwareIdentity> {
    match i {
        Some(x) => Some(*x),
        None => None,
    }
}

fn version_of(has_record: bool, identity: Option<&FirmwareIdentity>) -> (r: Option<String>)
    ensures
        text_option(r) == shown_version(has_record, identity_of(identity)),
{
    if !has_record {
        return None;
    }
    match identity {
        Some(i) => match &i.version {
            Some(v) => if v.as_str().is_empty() {
                None
            } else {
                Some(v.clone())
            },
            None => None,
        },
        None => None,
    }
}

fn report(t: &FlashTransferState) -> (r: FlashStatus)
    ensures
        reports(r, t@),
{
    FlashStatus {
        transfer_id: t.transfer_id.clone(),
        package_id: t.package_id.clone(),
        state: t.state,
        bytes_transferred: t.image_size,
        bytes_total: t.image_size,
        blocks_transferred: 1,
        blocks_total: 1,
        percent: 100,
        error: None,
    }
}

impl ComponentBackend {
    /// Calls the transfer validated.
    pub fn validate(&mut self) -> (r: Result<(), BackendError>)
        requires
            old(self).wf(),
        ensures
            final(self).wf(),
            step_taken(TransferStep::Validate, *old(self), *final(self), r),
    {
        let state = match &self.book.transfer {
            Some(t) => t.state,
            None => {
                return Err(
                    BackendError::EntityNotFound("No flash transfer in progress".to_owned()),
                );
            },
        };
        match state {
            FlashState::AwaitingActivation | FlashState::Validated | FlashState::AwaitingReboot => {
                self.book.set_transfer_state(FlashState::Validated);
                Ok(())
            },
            other => Err(
                BackendError::InvalidRequest(
                    cat2(
                        "validate() requires AwaitingActivation, Validated, or AwaitingReboot, got ",
                        other.as_label(),
                    ),
                ),
            ),
        }
    }

    /// Takes the validation of the transfer back.
    pub fn invalidate(&mut self) -> (r: Result<(), BackendError>)
        requires
            old(self).wf(),
        ensures
            final(self).wf(),
            step_taken(TransferStep::Invalidate, *old(self), *final(self), r),
    {
        let state = match &self.book.transfer {
            Some(t) => t.state,
            None => {
                return Err(
                    BackendError::EntityNotFound("No flash transfer in progress".to_owned()),
                );
            },
        };
        match state {
            FlashState::Validated => {
                self.book.set_transfer_state(FlashState::AwaitingActivation);
                Ok(())
            },
            other => Err(
                BackendError::InvalidRequest(
                    cat2("invalidate() requires Validated, got ", other.as_label()),
                ),
            ),
        }
    }

    /// Schedules the activation of a validated transfer.
    pub fn activate(&mut self) -> (r: Result<(), BackendError>)
        requires
            old(self).wf(),
        ensures
            final(self).wf(),
            step_taken(TransferStep::Activate, *old(self), *final(self), r),
    {
        let state = match &self.book.transfer {
            Some(t) => t.state,
            None => {
                return Err(
                    BackendError::EntityNotFound("No flash transfer in progress".to_owned()),
                );
            },
        };
        match state {
            FlashState::Validated => {
                let to = if self.setup.config.single_bank {
                    FlashState::Activated
                } else {
                    FlashState::AwaitingReboot
                };
                self.book.set_transfer_state(to);
                Ok(())
            },
            other => Err(
                BackendError::InvalidRequest(
                    cat2("activate() requires Validated, got ", other.as_label()),
                ),
            ),
        }
    }

    /// The bank that the component runs from after a reset.
    pub open spec fn bank_after_reset(self, nv: NvView) -> Bank {
        match nv.boot {
            Some(boot) => if self.setup.config.single_bank {
                self.running_bank
            } else {
                boot.active_bank
            },
            None => self.running_bank,
        }
    }

    /// The component is on trial, so that its boots are counted.
    pub open spec fn counts_boots(self, nv: NvView) -> bool {
        !self.setup.config.single_bank && nv.boot is Some && !nv.boot->0.committed
    }

    /// The boot state that a reset writes.
    pub open spec fn boot_after_reset(self, nv: NvView) -> Option<BankBootState> {
        if self.counts_boots(nv) {
            Some(
                BankBootState {
                    boot_count: (nv.boot->0.boot_count + 1) as u8,
                    ..nv.boot->0
                },
            )
        } else {
            None
        }
    }

    /// Begins a reset: a component with two banks runs from the active bank from
    /// now on, and a trial uses up one boot.
    pub fn ecu_reset(&mut self, nv: &NvView) -> (r: ResetPlan)
        requires
            old(self).wf(),
            old(self).counts_boots(*nv) ==> nv.boot->0.boot_count < 255,
        ensures
            final(self).wf(),
            reset_begun(*old(self), *final(self), *nv, r),
    {
        let mut write_boot: Option<BankBootState> = None;
        if !self.setup.config.single_bank {
            if let Some(boot) = nv.boot {
                self.running_bank = boot.active_bank;
                if !boot.committed {
                    write_boot = Some(
                        BankBootState {
                            active_bank: boot.active_bank,
                            committed: boot.committed,
                            boot_count: boot.boot_count + 1,
                        },
                    );
                }
            }
        }
        let probe = !self.setup.config.single_bank && !self.admin_disabled(nv)
            && self.setup.vm_service_addr.is_some();
        ResetPlan { write_boot, probe }
    }

    /// Ends a reset. The guest is started again on the bank that the component
    /// runs from, unless the component is disabled.
    pub fn reset_done(&mut self, nv: &NvView, was_running: bool) -> (r: Option<VmNotice>)
        requires
            old(self).wf(),
        ensures
            final(self).wf(),
            reset_ended(*old(self), *final(self), *nv, was_running, r),
    {
        self.book.set_transfer_state(FlashState::Activated);
        if self.setup.vm_service_addr.is_some() && !self.admin_disabled(nv) {
            Some(VmNotice { restart: was_running, bank: Some(self.running_bank) })
        } else {
            None
        }
    }

    /// A guest that enrols anew after an update was confirmed.
    pub open spec fn enrols(self) -> bool {
        self.setup.fittings.hsm && (self.setup.bank_set is Vm1 || self.setup.bank_set is Vm2)
    }

    /// The book and the next step after something was done to end a trial.
    pub open spec fn ending_next(self, ending: Ending, event: EndingEvent, nv: NvView) -> (
        BookView,
        EndingStep,
    ) {
        let book = self.book@;
        match event {
            EndingEvent::Started => match ending {
                Ending::Commit => (book, EndingStep::Commit),
                Ending::RollBack => if self.setup.config.supports_rollback {
                    (book, EndingStep::RollBack)
                } else {
                    (
                        book,
                        EndingStep::Failed(
                            BackendFault::InvalidRequest(
                                "rollback not supported for this component"@,
                            ),
                        ),
                    )
                },
            },
            EndingEvent::Provider(Ok(_)) => (book, EndingStep::Resolve(self.resolution(nv))),
            EndingEvent::Provider(Err(why)) => (
                book,
                EndingStep::Failed(BackendFault::Internal(why@)),
            ),
            EndingEvent::Resolved(Ok(_)) => (book, EndingStep::Refresh),
            EndingEvent::Resolved(Err(why)) => (
                book,
                EndingStep::Failed(BackendFault::Internal("nv write update-session: "@ + why@)),
            ),
            EndingEvent::Refreshed => if ending is Commit && self.enrols() {
                (book, EndingStep::ArmEnrollment)
            } else {
                (trial_ended(book), EndingStep::Done)
            },
            EndingEvent::Armed => (trial_ended(book), EndingStep::Done),
        }
    }

    fn end_trial(&mut self, ending: Ending, event: EndingEvent, nv: &NvView) -> (r: EndingAction)
        requires
            old(self).wf(),
            old(self).setup.bank_set.index() < NUM_BANK_SETS,
        ensures
            final(self).wf(),
            final(self).same_but_book(*old(self)),
            (final(self).book@, r@) == old(self).ending_next(ending, event, *nv),
    {
        match event {
            EndingEvent::Started => match ending {
                Ending::Commit => EndingAction::Commit,
                Ending::RollBack => {
                    if self.setup.config.supports_rollback {
                        EndingAction::RollBack
                    } else {
                        EndingAction::Failed(
                            BackendError::InvalidRequest(
                                "rollback not supported for this component".to_owned(),
                            ),
                        )
                    }
                },
            },
            EndingEvent::Provider(outcome) => match outcome {
                Ok(_) => EndingAction::Resolve(self.resolve_node_transaction(nv)),
                Err(why) => EndingAction::Failed(BackendError::Internal(why)),
            },
            EndingEvent::Resolved(outcome) => match outcome {
                Ok(_) => EndingAction::Refresh,
                Err(why) => EndingAction::Failed(
                    BackendError::Internal(cat2("nv write update-session: ", why.as_str())),
                ),
            },
            EndingEvent::Refreshed => {
                let is_guest = match self.setup.bank_set {
                    BankSet::Vm1 => true,
                    BankSet::Vm2 => true,
                    _ => false,
                };
                if ending == Ending::Commit && self.setup.fittings.hsm && is_guest {
                    EndingAction::ArmEnrollment
                } else {
                    self.book.transfer = None;
                    EndingAction::Done
                }
            },
            EndingEvent::Armed => {
                self.book.transfer = None;
                EndingAction::Done
            },
        }
    }

    /// Takes what was done to confirm an update, and says what is to be done next.
    pub fn commit_flash(&mut self, event: EndingEvent, nv: &NvView) -> (r: EndingAction)
        requires
            old(self).wf(),
            old(self).setup.bank_set.index() < NUM_BANK_SETS,
        ensures
            final(self).wf(),
            final(self).same_but_book(*old(self)),
            (final(self).book@, r@) == old(self).ending_next(Ending::Commit, event, *nv),
    {
        self.end_trial(Ending::Commit, event, nv)
    }

    /// Takes what was done to take an update back, and says what is to be done
    /// next.
    pub fn rollback_flash(&mut self, event: EndingEvent, nv: &NvView) -> (r: EndingAction)
        requires
            old(self).wf(),
            old(self).setup.bank_set.index() < NUM_BANK_SETS,
        ensures
            final(self).wf(),
            final(self).same_but_book(*old(self)),
            (final(self).book@, r@) == old(self).ending_next(Ending::RollBack, event, *nv),
    {
        self.end_trial(Ending::RollBack, event, nv)
    }

    /// What is reported of the transfer. There is at most one, and the id that is
    /// asked for does not choose it.
    pub fn get_flash_status(&self, transfer_id: &str) -> (r: Result<FlashStatus, BackendError>)
        ensures
            status_given(self.book@, transfer_id@, r),
    {
        match &self.book.transfer {
            Some(t) => Ok(report(t)),
            None => Err(BackendError::EntityNotFound(transfer_id.to_owned())),
        }
    }

    /// What is reported of all transfers: of the one, where there is one.
    pub fn list_flash_transfers(&self) -> (r: Vec<FlashStatus>)
        ensures
            transfers_given(self.book@, r@),
    {
        let mut r: Vec<FlashStatus> = Vec::new();
        if let Some(t) = &self.book.transfer {
            r.push(report(t));
        }
        r
    }

    /// How far the component's update has come: what is being uploaded comes
    /// before the transfer, and that before what the non-volatile store says. A
    /// component that was never written is new, whatever its boot state says.
    pub open spec fn activation_now(self, nv: NvView, boot: BankBootState) -> FlashState {
        match self.book.upload_phase {
            Some(s) => s,
            None => match self.book@.transfer_state() {
                Some(s) => s,
                None => if nv.meta_a is None && nv.meta_b is None {
                    FlashState::Initial
                } else if !boot.committed {
                    FlashState::Activated
                } else {
                    FlashState::Complete
                },
            },
        }
    }

    /// How far the component's update has come, and between which versions.
    /// `running` and `other` are what the manifests of the running bank and of the
    /// other one say.
    pub fn get_activation_state(
        &self,
        nv: &NvView,
        running: Option<&FirmwareIdentity>,
        other: Option<&FirmwareIdentity>,
        declared: ResetKind,
    ) -> (r: Result<ActivationState, BackendError>)
        ensures
            activation_reported(
                *self,
                *nv,
                identity_of(running),
                identity_of(other),
                declared,
                r,
            ),
    {
        let boot = match nv.boot {
            Some(b) => b,
            None => {
                return Err(BackendError::Internal("no boot state".to_owned()));
            },
        };
        let has_running = nv.meta_of(self.running_bank).is_some();
        let has_other = nv.meta_of(self.running_bank.other()).is_some();
        let state = match self.book.upload_phase {
            Some(s) => s,
            None => match &self.book.transfer {
                Some(t) => t.state,
                None => {
                    if !has_running && !has_other {
                        FlashState::Initial
                    } else if !boot.committed {
                        FlashState::Activated
                    } else {
                        FlashState::Complete
                    }
                },
            },
        };
        Ok(
            ActivationState {
                supports_rollback: self.setup.config.supports_rollback,
                state,
                active_version: version_of(has_running, running),
                previous_version: version_of(has_other, other),
                reset_kind: self.reset_kind(declared),
            },
        )
    }
}

/// However a trial ends, it ends with nothing to report: the transfer is gone only
/// when everything was done.
pub proof fn law_trial_ends_last(
    b: ComponentBackend,
    ending: Ending,
    event: EndingEvent,
    nv: NvView,
)
    requires
        b.book@.transfer is Some,
    ensures
        (b.ending_next(ending, event, nv).0.transfer is None) == (b.ending_next(
            ending,
            event,
            nv,
        ).1 is Done),
{
}

/// A trial whose boots are counted keeps its active bank, and stays a trial.
pub proof fn law_reset_counts_the_trial(b: ComponentBackend, nv: NvView)
    requires
        b.counts_boots(nv) ==> nv.boot->0.boot_count < 255,
    ensures
        b.boot_after_reset(nv) matches Some(after) ==> nv.boot is Some && !nv.boot->0.committed
            && !after.committed && after.active_bank == nv.boot->0.active_bank
            && after.boot_count == nv.boot->0.boot_count + 1,
{
}

/// A transfer can be validated while it waits to be activated or to be rebooted, and
/// once it is validated; only a validated one can be taken back or activated. A step
/// that cannot be taken changes nothing, and one that is taken changes the state of the
/// transfer alone.
pub proof fn law_transfers_move_step_by_step(
    step: TransferStep,
    before: ComponentBackend,
    after: ComponentBackend,
    r: Result<(), BackendError>,
)
    requires
        step_taken(step, before, after, r),
    ensures
        r is Ok <==> {
            &&& before.book@.transfer matches Some(t)
            &&& match step {
                TransferStep::Validate => t.state is AwaitingActivation || t.state is Validated
                    || t.state is AwaitingReboot,
                TransferStep::Invalidate => t.state is Validated,
                TransferStep::Activate => t.state is Validated,
            }
        },
        r is Err ==> after.book@ == before.book@,
        r is Ok ==> {
            &&& after.book@.transfer matches Some(now)
            &&& now.id == before.book@.transfer->0.id
            &&& now.package == before.book@.transfer->0.package
            &&& now.files == before.book@.transfer->0.files
            &&& step is Validate ==> now.state is Validated
            &&& step is Invalidate ==> now.state is AwaitingActivation
            &&& step is Activate && before.setup.config.single_bank ==> now.state is Activated
            &&& step is Activate && !before.setup.config.single_bank ==> now.state
                is AwaitingReboot
            &&& after.book@.session == before.book@.session
            &&& after.book@.packages == before.book@.packages
        },
        before.book@.transfer is None ==> (r matches Err(e) && e@ is EntityNotFound),
        before.book@.transfer is Some ==> (r matches Err(e) ==> e@ is InvalidRequest),
{
}

/// A reset puts a component with two banks on the bank that boots, and leaves one with a
/// single bank where it is. It writes a boot state only for a trial, and the same one
/// with one more boot; a confirmed component keeps its own. The guest is asked for only
/// where there is one, the component has two banks and is not disabled.
pub proof fn law_a_reset_boots_the_active_bank(
    before: ComponentBackend,
    after: ComponentBackend,
    nv: NvView,
    r: ResetPlan,
)
    requires
        reset_begun(before, after, nv, r),
        before.counts_boots(nv) ==> nv.boot->0.boot_count < 255,
    ensures
        after.book == before.book,
        after.setup == before.setup,
        before.setup.config.single_bank || nv.boot is None ==> after.running_bank
            == before.running_bank && r.write_boot is None,
        !before.setup.config.single_bank ==> (nv.boot matches Some(boot) ==> {
            &&& after.running_bank == boot.active_bank
            &&& r.write_boot is Some <==> !boot.committed
            &&& r.write_boot matches Some(w) ==> {
                &&& w.active_bank == boot.active_bank
                &&& !w.committed
                &&& w.boot_count == boot.boot_count + 1
            }
        }),
        r.probe ==> !before.setup.config.single_bank && before.setup.vm_service_addr is Some
            && !before.disabled(nv),
        !before.setup.config.single_bank && before.setup.vm_service_addr is Some
            && !before.disabled(nv) ==> r.probe,
{
}

/// Where a reset ends the guest comes up on the bank that the component runs from:
/// restarted where it ran, started where it did not, and left alone where there is none
/// or the component is disabled. The transfer, where there is one, counts as activated.
pub proof fn law_a_reset_brings_the_guest_back(
    before: ComponentBackend,
    after: ComponentBackend,
    nv: NvView,
    was_running: bool,
    r: Option<VmNotice>,
)
    requires
        reset_ended(before, after, nv, was_running, r),
    ensures
        r is Some <==> before.setup.vm_service_addr is Some && !before.disabled(nv),
        r matches Some(n) ==> (n.restart <==> was_running) && n.bank == Some(before.running_bank),
        after.running_bank == before.running_bank,
        after.book@.transfer is Some <==> before.book@.transfer is Some,
        after.book@.transfer matches Some(t) ==> t.state is Activated && t.id
            == before.book@.transfer->0.id,
        after.book@.packages == before.book@.packages,
{
}

/// Without an upload and without a transfer a component tells where it is from its
/// records: it is new where no bank was ever written; else it is on trial exactly where
/// its boot state is not confirmed, and through with its update exactly where it is.
pub proof fn law_an_idle_component_reports_its_trial(
    b: ComponentBackend,
    nv: NvView,
    running: Option<FirmwareIdentity>,
    other: Option<FirmwareIdentity>,
    declared: ResetKind,
    r: Result<ActivationState, BackendError>,
)
    requires
        activation_reported(b, nv, running, other, declared, r),
        b.book.upload_phase is None,
        b.book@.transfer is None,
    ensures
        r is Ok <==> nv.boot is Some,
        r matches Ok(a) ==> {
            let written = nv.meta_a is Some || nv.meta_b is Some;
            &&& a.state is Initial <==> !written
            &&& a.state is Activated <==> written && !nv.boot->0.committed
            &&& a.state is Complete <==> written && nv.boot->0.committed
        },
{
}

/// What is being uploaded is reported before a transfer, and a transfer before what the
/// records say. The version of a bank is reported only where the bank has a record and
/// its manifest names one, and then as the manifest has it: the running bank's as the
/// active one, the other bank's as the one before.
pub proof fn law_an_update_under_way_is_reported(
    b: ComponentBackend,
    nv: NvView,
    running: Option<FirmwareIdentity>,
    other: Option<FirmwareIdentity>,
    declared: ResetKind,
    r: Result<ActivationState, BackendError>,
)
    requires
        activation_reported(b, nv, running, other, declared, r),
    ensures
        r matches Err(e) ==> e@ is Internal,
        r matches Ok(a) ==> {
            &&& b.book.upload_phase matches Some(s) ==> a.state == s
            &&& b.book.upload_phase is None ==> (b.book@.transfer matches Some(t) ==> a.state
                == t.state)
            &&& a.supports_rollback == b.setup.config.supports_rollback
            &&& a.active_version matches Some(v) ==> {
                &&& b.running_bank is A ==> nv.meta_a is Some
                &&& b.running_bank is B ==> nv.meta_b is Some
                &&& running matches Some(i)
                &&& i.version matches Some(w)
                &&& v@ == w@
                &&& v@.len() > 0
            }
            &&& a.previous_version matches Some(v) ==> {
                &&& b.running_bank is A ==> nv.meta_b is Some
                &&& b.running_bank is B ==> nv.meta_a is Some
                &&& other matches Some(i)
                &&& i.version matches Some(w)
                &&& v@ == w@
                &&& v@.len() > 0
            }
            &&& nv.meta_a is Some && nv.meta_b is Some ==> {
                &&& (running matches Some(i) && i.version matches Some(w) && w@.len() > 0)
                    ==> a.active_version is Some
                &&& (other matches Some(i) && i.version matches Some(w) && w@.len() > 0)
                    ==> a.previous_version is Some
            }
        },
{
}

/// There is at most one transfer to report, and what is reported of it is what it is:
/// its ids, its state and its size, all of it transferred and without an error.
pub proof fn law_the_one_transfer_is_reported(
    book: BookView,
    transfer_id: Seq<char>,
    one: Result<FlashStatus, BackendError>,
    all: Seq<FlashStatus>,
)
    requires
        status_given(book, transfer_id, one),
        transfers_given(book, all),
    ensures
        one is Ok <==> book.transfer is Some,
        one matches Err(e) ==> e@ == BackendFault::EntityNotFound(transfer_id),
        all.len() == 1 <==> book.transfer is Some,
        all.len() <= 1,
        book.transfer matches Some(t) ==> {
            let s = one->Ok_0;
            &&& s.transfer_id@ == t.id && all[0].transfer_id@ == t.id
            &&& s.package_id@ == t.package && all[0].package_id@ == t.package
            &&& s.state == t.state && all[0].state == t.state
            &&& s.bytes_total == t.size && all[0].bytes_total == t.size
            &&& s.bytes_transferred == s.bytes_total
            &&& s.blocks_transferred == s.blocks_total
            &&& s.percent == 100
            &&& s.error is None
        },
{
}

/// One turn of ending a trial: the component as it was, what came of the step before,
/// and the non-volatile record then.
pub struct EndingTurn {
    pub backend: ComponentBackend,
    pub event: EndingEvent,
    pub nv: NvView,
}

impl EndingTurn {
    /// What the turn asks for.
    pub open spec fn step(self, ending: Ending) -> EndingStep {
        self.backend.ending_next(ending, self.event, self.nv).1
    }
}

/// The event tells what came of a step.
pub open spec fn ending_answers(step: EndingStep, event: EndingEvent) -> bool {
    match step {
        EndingStep::Commit => event is Provider,
        EndingStep::RollBack => event is Provider,
        EndingStep::Resolve(_) => event is Resolved,
        EndingStep::Refresh => event is Refreshed,
        EndingStep::ArmEnrollment => event is Armed,
        EndingStep::Done => false,
        EndingStep::Failed(_) => false,
    }
}

/// The turn with a number follows the one before it: it is told what came of the step
/// that the other asked for, and nothing else touched the component in between.
pub open spec fn ending_follows(turns: Seq<EndingTurn>, ending: Ending, i: int) -> bool {
    let before = turns[i - 1];
    let turn = turns[i];
    &&& ending_answers(before.step(ending), turn.event)
    &&& turn.backend.same_but_book(before.backend)
    &&& turn.backend.book@ == before.backend.ending_next(ending, before.event, before.nv).0
}

/// Turns that end a trial, one behind the other from its start on.
pub open spec fn ends_trial(turns: Seq<EndingTurn>, ending: Ending) -> bool {
    &&& turns.len() > 0
    &&& turns[0].event is Started
    &&& forall|i: int| 0 < i < turns.len() ==> #[trigger] ending_follows(turns, ending, i)
}

/// Confirming asks the provider of banks to confirm, and never to go back; going back
/// asks it to go back, where the component can, and never to confirm. The provider is
/// asked first and once; whatever comes later comes only after it did as it was asked.
/// The way back is refused at once where the component has none. A trial is over only
/// after the provider, the node and the served values are done, in this order.
pub proof fn law_a_trial_ends_as_it_was_asked(
    turns: Seq<EndingTurn>,
    ending: Ending,
    i: int,
)
    requires
        ends_trial(turns, ending),
        0 <= i < turns.len(),
    ensures
        ({
            let can = turns[0].backend.setup.config.supports_rollback;
            let first = turns[0].step(ending);
            let step = turns[i].step(ending);
            &&& ending is Commit ==> first is Commit && !(step is RollBack)
            &&& ending is RollBack ==> !(step is Commit)
            &&& ending is RollBack && can ==> first is RollBack
            &&& ending is RollBack && !can ==> {
                &&& first matches EndingStep::Failed(why)
                &&& why is InvalidRequest
                &&& i == 0
            }
            &&& i > 0 ==> !(step is Commit) && !(step is RollBack)
            &&& step is Resolve ==> i == 1
            &&& step is Refresh ==> i == 2
            &&& step is ArmEnrollment ==> i == 3 && ending is Commit
            &&& step is Resolve || step is Refresh || step is ArmEnrollment || step is Done ==> {
                &&& i >= 1
                &&& turns[1].event matches EndingEvent::Provider(Ok(_))
            }
            &&& step is Refresh || step is ArmEnrollment || step is Done ==> {
                &&& i >= 2
                &&& turns[2].event matches EndingEvent::Resolved(Ok(_))
            }
            &&& step is ArmEnrollment || step is Done ==> {
                &&& i >= 3
                &&& turns[3].event is Refreshed
            }
            &&& i >= 1 && (turns[1].event matches EndingEvent::Provider(Err(_))) ==> i == 1 && step
                is Failed
        }),
{
    if i >= 1 {
        assert(ending_follows(turns, ending, 1));
    }
    if i >= 2 {
        assert(ending_follows(turns, ending, 2));
    }
    if i >= 3 {
        assert(ending_follows(turns, ending, 3));
    }
    if i >= 4 {
        assert(ending_follows(turns, ending, 4));
    }
    if i >= 5 {
        assert(ending_follows(turns, ending, 5));
    }
}

/// A guest is let enrol anew exactly where an update of it was confirmed and there is a
/// security module; a component that is no guest never is.
pub proof fn law_only_confirmed_guests_enrol(
    b: ComponentBackend,
    ending: Ending,
    event: EndingEvent,
    nv: NvView,
)
    ensures
        b.ending_next(ending, event, nv).1 is ArmEnrollment <==> {
            &&& event is Refreshed
            &&& ending is Commit
            &&& b.setup.fittings.hsm
            &&& b.setup.bank_set is Vm1 || b.setup.bank_set is Vm2
        },
        b.ending_next(ending, event, nv).1 is Done ==> b.ending_next(ending, event, nv).0.transfer
            is None,
        b.ending_next(ending, event, nv).0.packages == b.book@.packages,
{
}

} // verus!
