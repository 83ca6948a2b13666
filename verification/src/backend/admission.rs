//! Whether an update may start, and how one is given up.

use crate::backend::book::BookView;
use crate::backend::setup::ComponentBackend;
use crate::banks::{Bank, BankSet, FlashState, NvView, NUM_BANK_SETS};
use crate::error::{BackendError, BackendFault};
use crate::text::{cat2, cat5, decimal, decimal_text};
use vstd::prelude::*;

verus! {

// ---------------------------------------------------------------------------
// The node's record of owed reboots
// ---------------------------------------------------------------------------

/// The bit of a place in the record.
pub open spec fn place_bit(i: int) -> u16 {
    1u16 << (i as u16)
}

/// The record has the bit of a place.
pub open spec fn bit_set(mask: u16, i: int) -> bool {
    mask & place_bit(i) != 0
}

/// The record says that a set owes a reboot.
pub open spec fn owes(mask: u16, set: BankSet) -> bool {
    bit_set(mask, set.index() as int)
}

/// The record after a set's bit was set or cleared.
pub open spec fn marked(mask: u16, set: BankSet, owed: bool) -> u16 {
    if owed {
        mask | place_bit(set.index() as int)
    } else {
        mask & !place_bit(set.index() as int)
    }
}

/// Marking a set sets its own bit as asked for and leaves the other sets alone.
pub proof fn law_marking_touches_one_set(mask: u16, set: BankSet, owed: bool, other: BankSet)
    requires
        set.index() < NUM_BANK_SETS,
        other.index() < NUM_BANK_SETS,
    ensures
        owes(marked(mask, set, owed), set) == owed,
        other.index() != set.index() ==> owes(marked(mask, set, owed), other) == owes(mask, other),
{
    lemma_bits(mask, set.index() as u16, other.index() as u16);
}

/// Marking a set twice is marking it once; clearing a mark that was not there
/// before gives the record back.
pub proof fn law_mark_and_clear(mask: u16, set: BankSet, owed: bool)
    requires
        set.index() < NUM_BANK_SETS,
    ensures
        marked(marked(mask, set, owed), set, owed) == marked(mask, set, owed),
        !owes(mask, set) ==> marked(marked(mask, set, true), set, false) == mask,
{
    lemma_mark_twice(mask, set.index() as u16);
}

proof fn lemma_bits(mask: u16, i: u16, j: u16)
    by (bit_vector)
    requires
        i < 16,
        j < 16,
    ensures
        (mask | (1u16 << i)) & (1u16 << i) != 0,
        (mask & !(1u16 << i)) & (1u16 << i) == 0,
        i != j ==> (mask | (1u16 << i)) & (1u16 << j) == mask & (1u16 << j),
        i != j ==> (mask & !(1u16 << i)) & (1u16 << j) == mask & (1u16 << j),
{
}

proof fn lemma_mark_twice(mask: u16, i: u16)
    by (bit_vector)
    requires
        i < 16,
    ensures
        (mask | (1u16 << i)) | (1u16 << i) == mask | (1u16 << i),
        (mask & !(1u16 << i)) & !(1u16 << i) == mask & !(1u16 << i),
        mask & (1u16 << i) == 0 ==> (mask | (1u16 << i)) & !(1u16 << i) == mask,
{
}

/// The record after a set's bit was set or cleared.
pub fn mark_reboot_owed(mask: u16, set: BankSet, owed: bool) -> (r: u16)
    requires
        set.index() < NUM_BANK_SETS,
    ensures
        r == marked(mask, set, owed),
{
    let i: usize = set.as_index();
    let bit: u16 = 1u16 << (i as u16);
    if owed {
        mask | bit
    } else {
        mask & !bit
    }
}

/// The record says that a set owes a reboot.
pub fn is_owed(mask: u16, set: BankSet) -> (r: bool)
    requires
        set.index() < NUM_BANK_SETS,
    ensures
        r == owes(mask, set),
{
    let i: usize = set.as_index();
    mask & (1u16 << (i as u16)) != 0
}

/// The names of the sets before `n` that owe a reboot, in the order of the sets.
pub open spec fn owing(mask: u16, names: Seq<Seq<char>>, n: nat) -> Seq<Seq<char>>
    decreases n,
{
    if n == 0 {
        Seq::empty()
    } else {
        let before = owing(mask, names, (n - 1) as nat);
        if bit_set(mask, n - 1) {
            before.push(names[n - 1])
        } else {
            before
        }
    }
}

/// The name of each set: the one that the coordinator has for it, or the number
/// of the set.
pub open spec fn names_of_sets(labels: Option<Seq<String>>) -> Seq<Seq<char>> {
    Seq::new(
        NUM_BANK_SETS as nat,
        |i: int|
            match labels {
                Some(l) => l[i]@,
                None => "bank-set "@ + decimal_text(i as nat),
            },
    )
}

/// The labels that the coordinator has for the sets.
pub open spec fn labels_view(labels: Option<&Vec<String>>) -> Option<Seq<String>> {
    match labels {
        Some(l) => Some(l@),
        None => None,
    }
}

/// The names of all sets that owe the node a reboot.
pub fn node_reboot_owed(mask: u16, labels: Option<&Vec<String>>) -> (r: Vec<String>)
    requires
        labels is Some ==> labels->0@.len() == NUM_BANK_SETS,
    ensures
        crate::logs::entry::texts(r@) == owing(
            mask,
            names_of_sets(labels_view(labels)),
            NUM_BANK_SETS as nat,
        ),
{
    let ghost names = names_of_sets(labels_view(labels));
    let mut r: Vec<String> = Vec::new();
    let mut i: usize = 0;
    assert(crate::logs::entry::texts(r@) =~= owing(mask, names, 0));
    while i < NUM_BANK_SETS
        invariant
            i <= NUM_BANK_SETS,
            labels is Some ==> labels->0@.len() == NUM_BANK_SETS,
            names == names_of_sets(labels_view(labels)),
            crate::logs::entry::texts(r@) == owing(mask, names, i as nat),
        decreases NUM_BANK_SETS - i,
    {
        let ghost before = r@;
        if mask & (1u16 << (i as u16)) != 0 {
            let name = match labels {
                Some(l) => l[i].clone(),
                None => cat2("bank-set ", decimal(i as u64).as_str()),
            };
            assert(name@ == names[i as int]);
            r.push(name);
            assert(crate::logs::entry::texts(r@) =~= crate::logs::entry::texts(before).push(name@));
        }
        i += 1;
    }
    r
}

// ---------------------------------------------------------------------------
// Admission
// ---------------------------------------------------------------------------

/// What the node's coordinator of updates is asked.
#[derive(Debug, Clone)]
pub struct GateRequest {
    /// The campaign that the update belongs to; all zeros where it belongs to
    /// none.
    pub session_id: [u8; 32],
    pub component: String,
    /// The sets that owe the node a reboot.
    pub reboot_owed: Vec<String>,
}

/// What an update is refused with while the component is on trial.
pub open spec fn trial_refusal(set: BankSet, active: crate::banks::Bank) -> Seq<char> {
    "bank set "@ + set.label() + " is in trial mode (active="@ + active.letter()
        + ", uncommitted) — commit or rollback the pending upgrade before starting a new one"@
}

// ---------------------------------------------------------------------------
// Starting
// ---------------------------------------------------------------------------

/// Leave to wipe a bank for an update that was admitted. Only admitting an update
/// gives it out.
#[derive(Debug)]
pub struct Admitted {
    bank: Bank,
}

impl Admitted {
    /// The bank that may be wiped.
    pub closed spec fn target(self) -> Bank {
        self.bank
    }

    /// The bank that may be wiped.
    pub fn bank(&self) -> (r: Bank)
        ensures
            r == self.target(),
    {
        self.bank
    }
}

/// What was done to start an update, and what came of it.
#[derive(Debug)]
pub enum StartEvent {
    /// The update is asked for. `gate` is the answer of the node's coordinator,
    /// `target` the bank that the update goes to.
    Asked { gate: Result<(), String>, target: Bank },
    /// The bank was wiped.
    Prepared { leave: Admitted, outcome: Result<(), String> },
}

/// What is to be done next to start an update.
#[derive(Debug)]
pub enum StartAction {
    /// Wipe the bank.
    Prepare(Admitted),
    /// The update was started under the id.
    Started(String),
    Failed(BackendError),
}

/// What is to be done next to start an update.
pub enum StartStep {
    Prepare(Bank),
    Started(Seq<char>),
    Failed(BackendFault),
}

impl View for StartAction {
    type V = StartStep;

    open spec fn view(&self) -> StartStep {
        match self {
            StartAction::Prepare(leave) => StartStep::Prepare(leave.target()),
            StartAction::Started(id) => StartStep::Started(id@),
            StartAction::Failed(e) => StartStep::Failed(e@),
        }
    }
}

impl ComponentBackend {
    /// The book and the next step after something was done to start an update;
    /// `begun` is the book once it has started.
    pub open spec fn start_next(self, event: StartEvent, nv: NvView, begun: BookView) -> (
        BookView,
        StartStep,
    ) {
        match event {
            StartEvent::Asked { gate, target } => match self.flash_refusal(nv, gate) {
                Some(why) => (self.book@, StartStep::Failed(why)),
                None => (self.book@, StartStep::Prepare(target)),
            },
            StartEvent::Prepared { leave, outcome } => match outcome {
                Err(why) => (self.book@, StartStep::Failed(BackendFault::Internal(why@))),
                Ok(_) => (begun, StartStep::Started(self.book@.fresh_id())),
            },
        }
    }

    /// Admits an update and gives out the leave to wipe the bank it goes to, or
    /// says why it is refused.
    pub fn give_leave(&self, nv: &NvView, gate: &Result<(), String>, target: Bank) -> (r: Result<
        Admitted,
        BackendError,
    >)
        ensures
            match r {
                Ok(leave) => self.flash_refusal(*nv, *gate) is None && leave.target() == target,
                Err(e) => self.flash_refusal(*nv, *gate) == Some(e@),
            },
    {
        match self.ensure_flash_can_start(nv, gate) {
            Ok(_) => Ok(Admitted { bank: target }),
            Err(e) => Err(e),
        }
    }
}

impl ComponentBackend {
    /// The component is disabled: it can be, and its flag says so. The flag of a
    /// component that cannot be disabled counts for nothing.
    pub open spec fn disabled(self, nv: NvView) -> bool {
        self.setup.fittings.deactivator && nv.disabled
    }

    /// Why the component itself refuses an update, if it does: it is disabled, or
    /// it has two banks and is on trial.
    pub open spec fn own_refusal(self, nv: NvView) -> Option<BackendFault> {
        if self.disabled(nv) {
            Some(
                BackendFault::Busy(
                    "component is administratively disabled — enable it before flashing"@,
                ),
            )
        } else if self.setup.config.single_bank {
            None
        } else {
            match nv.boot {
                None => Some(BackendFault::Internal("no boot state"@)),
                Some(boot) => if boot.committed {
                    None
                } else {
                    Some(BackendFault::Busy(trial_refusal(self.setup.bank_set, boot.active_bank)))
                },
            }
        }
    }

    /// Why an update is refused, if it is: by the component itself, or by the
    /// node's coordinator, whose answer is `gate`.
    pub open spec fn flash_refusal(self, nv: NvView, gate: Result<(), String>) -> Option<
        BackendFault,
    > {
        if self.own_refusal(nv) is Some {
            self.own_refusal(nv)
        } else if self.setup.fittings.coordinator {
            match gate {
                Ok(_) => None,
                Err(why) => Some(BackendFault::Busy(why@)),
            }
        } else {
            None
        }
    }

    /// The component can be disabled.
    pub fn is_disableable(&self) -> (r: bool)
        ensures
            r == self.setup.fittings.deactivator,
    {
        self.setup.fittings.deactivator
    }

    /// The component is disabled.
    pub fn admin_disabled(&self, nv: &NvView) -> (r: bool)
        ensures
            r == self.disabled(*nv),
    {
        self.is_disableable() && nv.disabled
    }

    fn refuse_own(&self, nv: &NvView) -> (r: Result<(), BackendError>)
        ensures
            match r {
                Ok(_) => self.own_refusal(*nv) is None,
                Err(e) => self.own_refusal(*nv) == Some(e@),
            },
    {
        if self.admin_disabled(nv) {
            return Err(
                BackendError::Busy(
                    "component is administratively disabled — enable it before flashing".to_owned(),
                ),
            );
        }
        if !self.setup.config.single_bank {
            match nv.boot {
                None => {
                    return Err(BackendError::Internal("no boot state".to_owned()));
                },
                Some(boot) => {
                    if !boot.committed {
                        return Err(
                            BackendError::Busy(
                                cat5(
                                    "bank set ",
                                    self.setup.bank_set.as_label(),
                                    " is in trial mode (active=",
                                    boot.active_bank.as_letter(),
                                    ", uncommitted) — commit or rollback the pending upgrade before starting a new one",
                                ),
                            ),
                        );
                    }
                },
            }
        }
        Ok(())
    }

    /// What the node's coordinator is to be asked before an update: nothing where
    /// the component refuses the update itself or the node has no coordinator.
    pub fn gate_request(&self, nv: &NvView, labels: &Vec<String>) -> (r: Result<
        Option<GateRequest>,
        BackendError,
    >)
        requires
            self.setup.fittings.coordinator ==> labels@.len() == NUM_BANK_SETS,
        ensures
            gate_asked(*self, *nv, labels@, r),
    {
        if let Err(e) = self.refuse_own(nv) {
            return Err(e);
        }
        if !self.setup.fittings.coordinator {
            return Ok(None);
        }
        let session_id: [u8; 32] = match &self.book.install_source {
            Some(s) => match s.session_id {
                Some(id) => id,
                None => [0u8;32],
            },
            None => [0u8;32],
        };
        assert(session_id@ =~= self.campaign());
        let reboot_owed = node_reboot_owed(nv.reboot_owed, Some(labels));
        Ok(
            Some(
                GateRequest {
                    session_id,
                    component: self.setup.entity_info.id.clone(),
                    reboot_owed,
                },
            ),
        )
    }

    /// The campaign that the next update belongs to.
    pub open spec fn campaign(self) -> Seq<u8> {
        match self.book.install_source {
            Some(s) => match s.session_id {
                Some(id) => id@,
                None => Seq::new(32, |i: int| 0u8),
            },
            None => Seq::new(32, |i: int| 0u8),
        }
    }

    /// Whether an update may start. `gate` is the answer of the node's
    /// coordinator to `gate_request`; it counts only where the node has one.
    pub fn ensure_flash_can_start(&self, nv: &NvView, gate: &Result<(), String>) -> (r: Result<
        (),
        BackendError,
    >)
        ensures
            match r {
                Ok(_) => self.flash_refusal(*nv, *gate) is None,
                Err(e) => self.flash_refusal(*nv, *gate) == Some(e@),
            },
    {
        if let Err(e) = self.refuse_own(nv) {
            return Err(e);
        }
        if self.setup.fittings.coordinator {
            if let Err(why) = gate {
                return Err(BackendError::Busy(why.clone()));
            }
        }
        Ok(())
    }

    /// An update is being uploaded or waits to be finished.
    pub open spec fn in_progress(self) -> bool {
        self.book.session is Some
    }

    /// An update is being uploaded or waits to be finished.
    pub fn flash_in_progress(&self) -> (r: bool)
        ensures
            r == self.in_progress(),
    {
        self.book.session.is_some()
    }

    /// The bank pointer has been flipped: the update can no longer be given up.
    pub open spec fn finalized(self) -> bool {
        match self.book.transfer {
            Some(t) => t.state.finalized(),
            None => false,
        }
    }

    /// The bank pointer has been flipped: the update can no longer be given up.
    pub fn flash_is_finalized(&self) -> (r: bool)
        ensures
            r == self.finalized(),
    {
        match &self.book.transfer {
            Some(t) => match t.state {
                FlashState::AwaitingReboot => true,
                FlashState::Activated => true,
                FlashState::Committed => true,
                FlashState::RolledBack => true,
                _ => false,
            },
            None => false,
        }
    }

    /// Forgets the update that is under way. What was finished stays finished.
    pub fn clear_flash_session(&mut self)
        requires
            old(self).wf(),
        ensures
            final(self).wf(),
            final(self).same_but_book(*old(self)),
            final(self).book@ == old(self).book@.cleared(),
    {
        self.book.clear();
    }

    /// What the node has to do when the component's update is over, whichever way
    /// it ended: the new record of owed reboots is to be written where it differs
    /// from the old one, and the component leaves the coordinator's staging.
    pub fn resolve_node_transaction(&self, nv: &NvView) -> (r: NodeResolution)
        requires
            self.setup.bank_set.index() < NUM_BANK_SETS,
        ensures
            r == self.resolution(*nv),
    {
        let mask: u16 = mark_reboot_owed(nv.reboot_owed, self.setup.bank_set, false);
        NodeResolution {
            write_reboot_owed: if mask != nv.reboot_owed {
                Some(mask)
            } else {
                None
            },
            leave_staging: self.setup.fittings.coordinator,
        }
    }

    /// What the node has to do when the component's update is over.
    pub open spec fn resolution(self, nv: NvView) -> NodeResolution {
        let mask = marked(nv.reboot_owed, self.setup.bank_set, false);
        NodeResolution {
            write_reboot_owed: if mask != nv.reboot_owed {
                Some(mask)
            } else {
                None
            },
            leave_staging: self.setup.fittings.coordinator,
        }
    }

    /// Gives the update up: forgets it, and says what the node has to do.
    pub fn abort_session(&mut self, nv: &NvView) -> (r: NodeResolution)
        requires
            old(self).wf(),
            old(self).setup.bank_set.index() < NUM_BANK_SETS,
        ensures
            final(self).wf(),
            final(self).same_but_book(*old(self)),
            final(self).book@ == old(self).book@.cleared(),
            r == old(self).resolution(*nv),
    {
        self.clear_flash_session();
        self.resolve_node_transaction(nv)
    }

    /// Gives the update up unless the bank pointer has been flipped.
    pub fn abort_flash(&mut self, nv: &NvView) -> (r: Result<NodeResolution, BackendError>)
        requires
            old(self).wf(),
            old(self).setup.bank_set.index() < NUM_BANK_SETS,
        ensures
            final(self).wf(),
            final(self).same_but_book(*old(self)),
            aborted(*old(self), *final(self), *nv, r),
    {
        if self.flash_is_finalized() {
            return Err(
                BackendError::InvalidRequest("cannot abort: install already finalized".to_owned()),
            );
        }
        Ok(self.abort_session(nv))
    }
}

/// What the node has to do when a component's update is over.
#[derive(Debug, Clone, Copy, PartialEq, Eq, Structural)]
pub struct NodeResolution {
    /// The record of owed reboots to write, where it changes.
    pub write_reboot_owed: Option<u16>,
    /// The component leaves the coordinator's staging.
    pub leave_staging: bool,
}

/// What the node's coordinator is to be asked.
pub open spec fn gate_asked(
    b: ComponentBackend,
    nv: NvView,
    labels: Seq<String>,
    r: Result<Option<GateRequest>, BackendError>,
) -> bool {
    match r {
        Err(e) => b.own_refusal(nv) == Some(e@),
        Ok(None) => b.own_refusal(nv) is None && !b.setup.fittings.coordinator,
        Ok(Some(q)) => {
            &&& b.own_refusal(nv) is None
            &&& b.setup.fittings.coordinator
            &&& q.session_id@ == b.campaign()
            &&& q.component@ == b.setup.id()
            &&& crate::logs::entry::texts(q.reboot_owed@) == owing(
                nv.reboot_owed,
                names_of_sets(Some(labels)),
                NUM_BANK_SETS as nat,
            )
        },
    }
}

/// What came of giving an update up.
pub open spec fn aborted(
    before: ComponentBackend,
    after: ComponentBackend,
    nv: NvView,
    r: Result<NodeResolution, BackendError>,
) -> bool {
    match r {
        Ok(n) => !before.finalized() && after.book@ == before.book@.cleared() && n
            == before.resolution(nv),
        Err(e) => before.finalized() && after == before && e@ == BackendFault::InvalidRequest(
            "cannot abort: install already finalized"@,
        ),
    }
}

/// The record of owed reboots after a resolution was carried out.
pub open spec fn owed_after(r: NodeResolution, mask: u16) -> u16 {
    match r.write_reboot_owed {
        Some(m) => m,
        None => mask,
    }
}

/// However an update ends, its component owes no reboot afterwards, and what the
/// other sets owe is unchanged.
pub proof fn law_resolution_clears_the_debt(b: ComponentBackend, nv: NvView, other: BankSet)
    requires
        b.setup.bank_set.index() < NUM_BANK_SETS,
        other.index() < NUM_BANK_SETS,
    ensures
        ({
            let after = owed_after(b.resolution(nv), nv.reboot_owed);
            &&& !owes(after, b.setup.bank_set)
            &&& other.index() != b.setup.bank_set.index() ==> owes(after, other) == owes(
                nv.reboot_owed,
                other,
            )
        }),
{
    law_marking_touches_one_set(nv.reboot_owed, b.setup.bank_set, false, other);
}

/// A disabled component refuses every update.
pub proof fn law_disabled_is_no_target(b: ComponentBackend, nv: NvView, gate: Result<(), String>)
    requires
        b.disabled(nv),
    ensures
        b.flash_refusal(nv, gate) is Some,
        b.flash_refusal(nv, gate)->0 is Busy,
{
}

/// A component with two banks that is on trial refuses every update until the
/// trial is over.
pub proof fn law_trial_is_no_target(b: ComponentBackend, nv: NvView, gate: Result<(), String>)
    requires
        !b.setup.config.single_bank,
        nv.boot is Some,
        !nv.boot->0.committed,
    ensures
        b.flash_refusal(nv, gate) is Some,
        b.flash_refusal(nv, gate)->0 is Busy,
{
}

/// A refused update wipes nothing: a bank is to be wiped only where an update was
/// asked for and admitted, and then the bank that it goes to. While a component
/// with two banks is on trial, no bank is.
pub proof fn law_refused_update_wipes_nothing(
    b: ComponentBackend,
    event: StartEvent,
    nv: NvView,
    begun: BookView,
    bank: Bank,
)
    requires
        b.start_next(event, nv, begun).1 == StartStep::Prepare(bank),
    ensures
        event is Asked,
        event->target == bank,
        b.flash_refusal(nv, event->gate) is None,
        !b.disabled(nv),
        !b.setup.config.single_bank ==> nv.boot is Some && nv.boot->0.committed,
{
}

/// An update that is refused changes nothing in the book.
pub proof fn law_refused_update_changes_nothing(
    b: ComponentBackend,
    event: StartEvent,
    nv: NvView,
    begun: BookView,
)
    requires
        b.start_next(event, nv, begun).1 is Failed,
    ensures
        b.start_next(event, nv, begun).0 == b.book@,
{
}

/// Giving an update up leaves no trace of it in what can be finished: there is no
/// session, no transfer and no package.
pub proof fn law_abort_leaves_nothing(book: BookView)
    ensures
        book.cleared().session is None,
        book.cleared().transfer is None,
        book.cleared().source is None,
        book.cleared().packages.dom() =~= Set::empty(),
{
}

/// A set owes a reboot exactly where the record, read as a number, is odd once it is
/// shifted down to the set's place.
pub proof fn law_each_set_has_one_bit(mask: u16, set: BankSet)
    requires
        set.index() < NUM_BANK_SETS,
    ensures
        owes(mask, set) <==> (mask >> (set.index() as u16)) & 1u16 == 1u16,
{
    lemma_shifted(mask, set.index() as u16);
}

proof fn lemma_shifted(mask: u16, i: u16)
    by (bit_vector)
    requires
        i < 16,
    ensures
        mask & (1u16 << i) != 0 <==> (mask >> i) & 1u16 == 1u16,
{
}

/// An update may start exactly where the component is not disabled, has a single bank or
/// is on no trial, and the node's coordinator, where there is one, has no objection. Each
/// refusal but that of a missing record says that it is busy.
pub proof fn law_when_an_update_may_start(b: ComponentBackend, nv: NvView, gate: Result<(), String>)
    ensures
        b.flash_refusal(nv, gate) is None <==> {
            &&& !(b.setup.fittings.deactivator && nv.disabled)
            &&& b.setup.config.single_bank || (nv.boot matches Some(boot) && boot.committed)
            &&& b.setup.fittings.coordinator ==> gate is Ok
        },
        b.flash_refusal(nv, gate) matches Some(why) ==> why is Busy || {
            &&& why is Internal
            &&& !b.setup.config.single_bank
            &&& nv.boot is None
        },
        b.own_refusal(nv) is None && b.setup.fittings.coordinator ==> (gate matches Err(no)
            ==> b.flash_refusal(nv, gate) == Some(BackendFault::Busy(no@))),
{
}

/// Only a component that can be disabled is ever disabled, and then as its flag says.
pub proof fn law_only_the_flag_disables(b: ComponentBackend, nv: NvView)
    ensures
        b.disabled(nv) ==> nv.disabled && b.setup.fittings.deactivator,
        b.setup.fittings.deactivator ==> b.disabled(nv) == nv.disabled,
{
}

proof fn lemma_owing(mask: u16, names: Seq<Seq<char>>, n: nat)
    requires
        n <= names.len(),
    ensures
        forall|i: int|
            0 <= i < n && bit_set(mask, i) ==> owing(mask, names, n).contains(#[trigger] names[i]),
        forall|name: Seq<char>| #[trigger]
            owing(mask, names, n).contains(name) ==> exists|i: int|
                0 <= i < n && bit_set(mask, i) && #[trigger] names[i] == name,
        owing(mask, names, n).len() <= n,
    decreases n,
{
    if n > 0 {
        let m = (n - 1) as nat;
        lemma_owing(mask, names, m);
        let before = owing(mask, names, m);
        let now = owing(mask, names, n);
        assert forall|i: int| 0 <= i < n && bit_set(mask, i) implies now.contains(
            #[trigger] names[i],
        ) by {
            if i < m {
                let at = choose|at: int| 0 <= at < before.len() && before[at] == names[i];
                assert(now[at] == names[i]);
            } else {
                assert(now[before.len() as int] == names[i]);
            }
        }
        assert forall|name: Seq<char>| #[trigger] now.contains(name) implies exists|i: int|
            0 <= i < n && bit_set(mask, i) && #[trigger] names[i] == name by {
            let at = choose|at: int| 0 <= at < now.len() && now[at] == name;
            if at < before.len() {
                assert(before[at] == name);
                assert(before.contains(name));
                let i = choose|i: int| 0 <= i < m && bit_set(mask, i) && #[trigger] names[i] == name;
                assert(0 <= i < n && bit_set(mask, i) && names[i] == name);
            } else {
                assert(bit_set(mask, n - 1) && names[n - 1] == name);
            }
        }
    }
}

/// The coordinator is asked exactly where the component itself has no objection and the
/// node has one. It is told the component, the campaign of the source that was given for
/// the update or zeros without one, and the names of exactly those sets that owe the node
/// a reboot.
pub proof fn law_the_coordinator_is_told_the_truth(
    b: ComponentBackend,
    nv: NvView,
    labels: Seq<String>,
    r: Result<Option<GateRequest>, BackendError>,
)
    requires
        gate_asked(b, nv, labels, r),
        b.setup.fittings.coordinator ==> labels.len() == NUM_BANK_SETS,
    ensures
        r is Err <==> b.own_refusal(nv) is Some,
        r matches Ok(asked) ==> (asked is Some <==> b.setup.fittings.coordinator),
        r matches Ok(Some(q)) ==> {
            let owed = crate::logs::entry::texts(q.reboot_owed@);
            &&& q.component@ == b.setup.entity_info.id@
            &&& b.book.install_source is None ==> forall|i: int|
                0 <= i < 32 ==> #[trigger] q.session_id@[i] == 0
            &&& b.book.install_source matches Some(s) ==> (s.session_id matches Some(id)
                ==> q.session_id@ == id@)
            &&& forall|i: int|
                0 <= i < 16 && bit_set(nv.reboot_owed, i) ==> owed.contains(
                    (#[trigger] labels[i])@,
                )
            &&& forall|name: Seq<char>| #[trigger]
                owed.contains(name) ==> exists|i: int|
                    0 <= i < 16 && bit_set(nv.reboot_owed, i) && (#[trigger] labels[i])@ == name
        },
{
    if let Ok(Some(q)) = r {
        let names = names_of_sets(Some(labels));
        let owed = crate::logs::entry::texts(q.reboot_owed@);
        lemma_owing(nv.reboot_owed, names, 16);
        assert forall|i: int| 0 <= i < 16 && bit_set(nv.reboot_owed, i) implies owed.contains(
            (#[trigger] labels[i])@,
        ) by {
            assert(names[i] == labels[i]@);
        }
        assert forall|name: Seq<char>| #[trigger] owed.contains(name) implies exists|i: int|
            0 <= i < 16 && bit_set(nv.reboot_owed, i) && (#[trigger] labels[i])@ == name by {
            let i = choose|i: int|
                0 <= i < 16 && bit_set(nv.reboot_owed, i) && #[trigger] names[i] == name;
            assert(labels[i]@ == name);
        }
    }
}

/// An update can be given up exactly as long as its bank pointer was not flipped. Giving
/// it up forgets the session, the transfer, the source and all that was uploaded, but not
/// where parts went; a refusal changes nothing. No id is ever given out again.
pub proof fn law_an_update_can_be_given_up(
    before: ComponentBackend,
    after: ComponentBackend,
    nv: NvView,
    r: Result<NodeResolution, BackendError>,
)
    requires
        aborted(before, after, nv, r),
    ensures
        r is Err <==> (before.book.transfer matches Some(t) && (t.state is AwaitingReboot || t.state
            is Activated || t.state is Committed || t.state is RolledBack)),
        r matches Err(e) ==> after == before && e@ is InvalidRequest,
        r matches Ok(n) ==> {
            &&& after.book@.session is None
            &&& after.book@.transfer is None
            &&& after.book@.upload_phase is None
            &&& after.book@.source is None
            &&& after.book@.packages =~= Map::empty()
            &&& after.book@.describe =~= Map::empty()
            &&& after.book@.manifests =~= Map::empty()
            &&& after.book@.payloads =~= Map::empty()
            &&& after.book@.parts == before.book@.parts
            &&& after.book@.next_id == before.book@.next_id
            &&& n.leave_staging == before.setup.fittings.coordinator
            &&& n.write_reboot_owed matches Some(m) ==> m != nv.reboot_owed
        },
{
}

/// An update starts only once its bank was wiped, and under an id that nothing had
/// before; a bank that could not be wiped starts nothing.
pub proof fn law_a_start_follows_the_wipe(
    b: ComponentBackend,
    event: StartEvent,
    nv: NvView,
    begun: BookView,
)
    requires
        b.book@.ids_ok(),
    ensures
        b.start_next(event, nv, begun).1 is Started <==> (event matches StartEvent::Prepared {
            leave,
            outcome,
        } && outcome is Ok),
        b.start_next(event, nv, begun).1 matches StartStep::Started(id) ==> !b.book@.knows(id)
            && b.start_next(event, nv, begun).0 == begun,
        (event matches StartEvent::Prepared { leave, outcome } && outcome is Err) ==> b.start_next(
            event,
            nv,
            begun,
        ).1 is Failed,
        event matches StartEvent::Asked { gate, target } ==> (b.start_next(event, nv, begun).1
            is Prepare <==> b.flash_refusal(nv, gate) is None),
{
    crate::backend::book::law_next_id_is_fresh(b.book@.next_id);
}

/// When an update is over the record of owed reboots is written exactly where the
/// component was in it, and the component leaves the staging exactly where the node has a
/// coordinator.
pub proof fn law_the_end_is_written_where_it_matters(b: ComponentBackend, nv: NvView)
    requires
        b.setup.bank_set.index() < NUM_BANK_SETS,
    ensures
        b.resolution(nv).write_reboot_owed is Some <==> owes(nv.reboot_owed, b.setup.bank_set),
        b.resolution(nv).leave_staging == b.setup.fittings.coordinator,
{
    lemma_cleared_differs(nv.reboot_owed, b.setup.bank_set.index() as u16);
}

proof fn lemma_cleared_differs(mask: u16, i: u16)
    by (bit_vector)
    requires
        i < 16,
    ensures
        mask & !(1u16 << i) != mask <==> mask & (1u16 << i) != 0,
{
}

/// An update is in progress exactly when it has a session, so that none is once the
/// update was given up.
pub proof fn law_a_session_is_an_update_in_progress(b: ComponentBackend, after: ComponentBackend)
    ensures
        b.in_progress() <==> b.book@.session is Some,
        after.book@ == b.book@.cleared() ==> !after.in_progress(),
{
}

/// A bank that could not be wiped is a failure of this node, told with its cause, and
/// leaves everything as it was.
pub proof fn law_a_wipe_fails_with_its_cause(
    b: ComponentBackend,
    leave: Admitted,
    why: String,
    nv: NvView,
    begun: BookView,
)
    ensures
        b.start_next(StartEvent::Prepared { leave, outcome: Err(why) }, nv, begun) == (
            b.book@,
            StartStep::Failed(BackendFault::Internal(why@)),
        ),
{
}

} // verus!
