//! Disabling and enabling a component.
//!
//! A component is disabled only while nothing is going on with it, and the flag is
//! written before anything is stopped: a component that is disabled can never be
//! on trial.

use crate::backend::activation::VmNotice;
use crate::backend::admission::{is_owed, owes};
use crate::backend::setup::ComponentBackend;
use crate::banks::{NUM_BANK_SETS, Bank, BankSet, NvView};
use crate::error::{BackendError, BackendFault};
use crate::logs::entry::text_option;
use crate::text::{cat2, cat3};
use vstd::prelude::*;

verus! {

/// What came of disabling or enabling a component.
#[derive(Debug, Clone)]
pub struct AdminStateOutcome {
    pub disabled: bool,
    /// The node has to restart before the component really stops.
    pub reboot_required: bool,
    /// The flag is written, but acting on it failed.
    pub enact_error: Option<String>,
}

/// What came of disabling or enabling a component.
pub struct OutcomeView {
    pub disabled: bool,
    pub reboot_required: bool,
    pub enact_error: Option<Seq<char>>,
}

impl View for AdminStateOutcome {
    type V = OutcomeView;

    open spec fn view(&self) -> OutcomeView {
        OutcomeView {
            disabled: self.disabled,
            reboot_required: self.reboot_required,
            enact_error: text_option(self.enact_error),
        }
    }
}

/// What is to be done next to disable or enable a component.
#[derive(Debug, Clone)]
pub enum AdminAction {
    /// Write the component's flag.
    WriteFlag(bool),
    /// Stop the component.
    Deactivate,
    /// Have the guest started.
    Notify(VmNotice),
    Done(AdminStateOutcome),
    Failed(BackendError),
}

/// What was done to disable or enable a component, and what came of it.
#[derive(Debug)]
pub enum AdminEvent {
    Asked,
    FlagWritten(Result<(), String>),
    /// The component was stopped, and whether the node has to restart for that.
    Deactivated(Result<bool, String>),
    Notified(Result<(), String>),
}

/// What is to be done next to disable or enable a component.
pub enum AdminStep {
    WriteFlag(bool),
    Deactivate,
    Notify(VmNotice),
    Done(OutcomeView),
    Failed(BackendFault),
}

impl View for AdminAction {
    type V = AdminStep;

    open spec fn view(&self) -> AdminStep {
        match self {
            AdminAction::WriteFlag(b) => AdminStep::WriteFlag(*b),
            AdminAction::Deactivate => AdminStep::Deactivate,
            AdminAction::Notify(n) => AdminStep::Notify(*n),
            AdminAction::Done(o) => AdminStep::Done(o@),
            AdminAction::Failed(e) => AdminStep::Failed(e@),
        }
    }
}

/// What disabling is refused with on trial.
pub open spec fn trial_disable_refusal(set: BankSet) -> Seq<char> {
    "bank set "@ + set.label()
        + " is in trial mode (uncommitted) — commit or roll back the pending upgrade before disabling"@
}

impl ComponentBackend {
    /// Why the component cannot be disabled now, if it cannot: it has two banks and
    /// is on trial, an update is going on, or it owes the node a reboot.
    pub open spec fn disable_refusal(self, nv: NvView) -> Option<BackendFault> {
        if !self.setup.config.single_bank && nv.boot is None {
            Some(BackendFault::Internal("no boot state"@))
        } else if !self.setup.config.single_bank && !nv.boot->0.committed {
            Some(BackendFault::Busy(trial_disable_refusal(self.setup.bank_set)))
        } else if self.book.session is Some {
            Some(
                BackendFault::Busy(
                    "a flash session is in progress on this component — resolve it before disabling"@,
                ),
            )
        } else if owes(nv.reboot_owed, self.setup.bank_set) {
            Some(
                BackendFault::Busy(
                    "this component owes the node a pending activation reboot — resolve the update transaction before disabling"@,
                ),
            )
        } else {
            None
        }
    }

    /// The bank that a guest starts from when it is enabled.
    pub open spec fn enabling_bank(self, nv: NvView) -> Option<Bank> {
        if self.setup.config.single_bank {
            Some(Bank::A)
        } else {
            match nv.boot {
                Some(boot) => Some(boot.active_bank),
                None => None,
            }
        }
    }

    /// The next step after something was done to disable or enable the component.
    pub open spec fn admin_next(self, disable: bool, event: AdminEvent, nv: NvView) -> AdminStep {
        match event {
            AdminEvent::Asked => if !self.setup.fittings.deactivator {
                AdminStep::Failed(
                    BackendFault::NotSupported(
                        "component does not support administrative disable"@,
                    ),
                )
            } else if self.disabled(nv) == disable {
                AdminStep::Done(
                    OutcomeView { disabled: disable, reboot_required: false, enact_error: None },
                )
            } else if disable {
                match self.disable_refusal(nv) {
                    Some(why) => AdminStep::Failed(why),
                    None => AdminStep::WriteFlag(true),
                }
            } else {
                AdminStep::WriteFlag(false)
            },
            AdminEvent::FlagWritten(Err(why)) => AdminStep::Failed(
                BackendFault::Internal("nv write admin-state: "@ + why@),
            ),
            AdminEvent::FlagWritten(Ok(_)) => if disable {
                AdminStep::Deactivate
            } else if self.setup.vm_service_addr is Some {
                AdminStep::Notify(VmNotice { restart: false, bank: self.enabling_bank(nv) })
            } else {
                AdminStep::Done(
                    OutcomeView { disabled: false, reboot_required: false, enact_error: None },
                )
            },
            AdminEvent::Deactivated(Ok(reboot)) => AdminStep::Done(
                OutcomeView { disabled: true, reboot_required: reboot, enact_error: None },
            ),
            AdminEvent::Deactivated(Err(why)) => AdminStep::Done(
                OutcomeView { disabled: true, reboot_required: false, enact_error: Some(why@) },
            ),
            AdminEvent::Notified(Ok(_)) => AdminStep::Done(
                OutcomeView { disabled: false, reboot_required: false, enact_error: None },
            ),
            AdminEvent::Notified(Err(why)) => AdminStep::Done(
                OutcomeView {
                    disabled: false,
                    reboot_required: false,
                    enact_error: Some("vm-service start: "@ + why@),
                },
            ),
        }
    }

    fn refuse_disable(&self, nv: &NvView) -> (r: Result<(), BackendError>)
        requires
            self.setup.bank_set.index() < NUM_BANK_SETS,
        ensures
            match r {
                Ok(_) => self.disable_refusal(*nv) is None,
                Err(e) => self.disable_refusal(*nv) == Some(e@),
            },
    {
        if !self.setup.config.single_bank {
            match nv.boot {
                None => {
                    return Err(BackendError::Internal("no boot state".to_owned()));
                },
                Some(boot) => {
                    if !boot.committed {
                        return Err(
                            BackendError::Busy(
                                cat3(
                                    "bank set ",
                                    self.setup.bank_set.as_label(),
                                    " is in trial mode (uncommitted) — commit or roll back the pending upgrade before disabling",
                                ),
                            ),
                        );
                    }
                },
            }
        }
        if self.flash_in_progress() {
            return Err(
                BackendError::Busy(
                    "a flash session is in progress on this component — resolve it before disabling".to_owned(),
                ),
            );
        }
        if is_owed(nv.reboot_owed, self.setup.bank_set) {
            return Err(
                BackendError::Busy(
                    "this component owes the node a pending activation reboot — resolve the update transaction before disabling".to_owned(),
                ),
            );
        }
        Ok(())
    }

    /// Takes what was done to disable or enable the component, and says what is to
    /// be done next.
    pub fn set_admin_state(&self, disable: bool, event: AdminEvent, nv: &NvView) -> (r: AdminAction)
        requires
            self.setup.bank_set.index() < NUM_BANK_SETS,
        ensures
            r@ == self.admin_next(disable, event, *nv),
    {
        match event {
            AdminEvent::Asked => {
                if !self.is_disableable() {
                    return AdminAction::Failed(
                        BackendError::NotSupported(
                            "component does not support administrative disable".to_owned(),
                        ),
                    );
                }
                if self.admin_disabled(nv) == disable {
                    return AdminAction::Done(
                        AdminStateOutcome {
                            disabled: disable,
                            reboot_required: false,
                            enact_error: None,
                        },
                    );
                }
                if disable {
                    if let Err(e) = self.refuse_disable(nv) {
                        return AdminAction::Failed(e);
                    }
                }
                AdminAction::WriteFlag(disable)
            },
            AdminEvent::FlagWritten(outcome) => match outcome {
                Err(why) => AdminAction::Failed(
                    BackendError::Internal(cat2("nv write admin-state: ", why.as_str())),
                ),
                Ok(_) => {
                    if disable {
                        return AdminAction::Deactivate;
                    }
                    if self.setup.vm_service_addr.is_some() {
                        let bank = if self.setup.config.single_bank {
                            Some(Bank::A)
                        } else {
                            match nv.boot {
                                Some(boot) => Some(boot.active_bank),
                                None => None,
                            }
                        };
                        AdminAction::Notify(VmNotice { restart: false, bank })
                    } else {
                        AdminAction::Done(
                            AdminStateOutcome {
                                disabled: false,
                                reboot_required: false,
                                enact_error: None,
                            },
                        )
                    }
                },
            },
            AdminEvent::Deactivated(outcome) => match outcome {
                Ok(reboot_required) => AdminAction::Done(
                    AdminStateOutcome { disabled: true, reboot_required, enact_error: None },
                ),
                Err(why) => AdminAction::Done(
                    AdminStateOutcome {
                        disabled: true,
                        reboot_required: false,
                        enact_error: Some(why),
                    },
                ),
            },
            AdminEvent::Notified(outcome) => match outcome {
                Ok(_) => AdminAction::Done(
                    AdminStateOutcome {
                        disabled: false,
                        reboot_required: false,
                        enact_error: None,
                    },
                ),
                Err(why) => AdminAction::Done(
                    AdminStateOutcome {
                        disabled: false,
                        reboot_required: false,
                        enact_error: Some(cat2("vm-service start: ", why.as_str())),
                    },
                ),
            },
        }
    }
}

/// A component is disabled only when nothing is going on with it: it is not on
/// trial, no update is going on, and it owes no reboot.
pub proof fn law_disabled_only_when_idle(
    b: ComponentBackend,
    disable: bool,
    event: AdminEvent,
    nv: NvView,
)
    requires
        b.admin_next(disable, event, nv) == AdminStep::WriteFlag(true),
    ensures
        b.setup.fittings.deactivator,
        !b.setup.config.single_bank ==> nv.boot is Some && nv.boot->0.committed,
        b.book.session is None,
        !owes(nv.reboot_owed, b.setup.bank_set),
{
}

/// The flag is written before anything is stopped or started: what stops and what
/// starts a component is asked for only once the flag was written.
pub proof fn law_flag_comes_first(
    b: ComponentBackend,
    disable: bool,
    event: AdminEvent,
    nv: NvView,
)
    requires
        ({
            let step = b.admin_next(disable, event, nv);
            step is Deactivate || step is Notify
        }),
    ensures
        event matches AdminEvent::FlagWritten(Ok(_)),
{
}

/// Asking for the state that a component is in changes nothing.
pub proof fn law_admin_state_is_idempotent(b: ComponentBackend, disable: bool, nv: NvView)
    requires
        b.setup.fittings.deactivator,
        nv.disabled == disable,
    ensures
        b.admin_next(disable, AdminEvent::Asked, nv) == AdminStep::Done(
            OutcomeView { disabled: disable, reboot_required: false, enact_error: None },
        ),
{
}

/// Failing to act on the flag does not take it back: a component that could not be
/// stopped is disabled all the same.
pub proof fn law_failed_stop_stays_disabled(b: ComponentBackend, why: String, nv: NvView)
    ensures
        b.admin_next(true, AdminEvent::Deactivated(Err(why)), nv) matches AdminStep::Done(o)
            && o.disabled && !o.reboot_required && o.enact_error == Some(why@),
{
}

/// Asking to disable or enable a component is refused exactly where it cannot be
/// disabled at all, or where it is to be disabled and is not yet while it is on trial,
/// has lost its boot state, is being updated or owes a reboot. Enabling is never refused
/// for any of those. What is then written is what was asked for.
pub proof fn law_when_a_component_can_be_disabled(b: ComponentBackend, disable: bool, nv: NvView)
    ensures
        ({
            let step = b.admin_next(disable, AdminEvent::Asked, nv);
            let banked = !b.setup.config.single_bank;
            let busy = (banked && (nv.boot is None || !nv.boot->0.committed)) || b.book.session
                is Some || owes(nv.reboot_owed, b.setup.bank_set);
            &&& step is Failed <==> !b.setup.fittings.deactivator || (disable && !nv.disabled
                && busy)
            &&& step is Done <==> b.setup.fittings.deactivator && nv.disabled == disable
            &&& step is WriteFlag <==> b.setup.fittings.deactivator && nv.disabled != disable
                && !(disable && busy)
            &&& step matches AdminStep::WriteFlag(flag) ==> flag == disable
            &&& !b.setup.fittings.deactivator ==> (step matches AdminStep::Failed(why) && why
                is NotSupported)
        }),
{
}

/// Once the flag is written a component that was disabled is stopped, and one that was
/// enabled has its guest started, on the bank that it boots from, where it has one. The
/// outcome says what was asked for; that the node has to restart only where stopping the
/// component said so; and an error exactly where acting on the flag failed.
pub proof fn law_the_flag_is_acted_on(
    b: ComponentBackend,
    disable: bool,
    event: AdminEvent,
    nv: NvView,
)
    requires
        event is Deactivated ==> disable,
        event is Notified ==> !disable,
        event is FlagWritten || event is Deactivated || event is Notified,
    ensures
        ({
            let step = b.admin_next(disable, event, nv);
            &&& step is Failed <==> (event matches AdminEvent::FlagWritten(Err(_)))
            &&& step is Deactivate <==> disable && (event matches AdminEvent::FlagWritten(Ok(_)))
            &&& step is Notify <==> !disable && b.setup.vm_service_addr is Some && (event matches
                AdminEvent::FlagWritten(Ok(_)))
            &&& step matches AdminStep::Notify(n) ==> {
                &&& !n.restart
                &&& b.setup.config.single_bank ==> n.bank == Some(Bank::A)
                &&& !b.setup.config.single_bank ==> (nv.boot matches Some(boot) ==> n.bank == Some(
                    boot.active_bank,
                ))
            }
            &&& step matches AdminStep::Done(o) ==> {
                &&& o.disabled == disable
                &&& o.reboot_required <==> (event matches AdminEvent::Deactivated(Ok(reboot))
                    && reboot)
                &&& o.enact_error is Some <==> (event matches AdminEvent::Deactivated(Err(_))) || (
                event matches AdminEvent::Notified(Err(_)))
            }
        }),
{
}

} // verus!
