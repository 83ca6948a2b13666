//! Banks and bank sets, and what the non-volatile store keeps about them.

use vstd::prelude::*;

verus! {

/// One of the two places that a component's firmware can live in.
#[derive(Debug, Clone, Copy, PartialEq, Eq, Structural)]
pub enum Bank {
    A,
    B,
}

impl Bank {
    /// The sibling of a bank.
    pub open spec fn sibling(self) -> Bank {
        match self {
            Bank::A => Bank::B,
            Bank::B => Bank::A,
        }
    }

    /// The other bank.
    pub fn other(self) -> (r: Bank)
        ensures
            r == self.sibling(),
            r != self,
    {
        match self {
            Bank::A => Bank::B,
            Bank::B => Bank::A,
        }
    }

    /// The name of a bank's directory.
    pub open spec fn dir_name(self) -> Seq<char> {
        match self {
            Bank::A => "bank_a"@,
            Bank::B => "bank_b"@,
        }
    }

    /// The letter of a bank.
    pub open spec fn letter(self) -> Seq<char> {
        match self {
            Bank::A => "A"@,
            Bank::B => "B"@,
        }
    }

    /// The letter of a bank.
    pub fn as_letter(self) -> (r: &'static str)
        ensures
            r@ == self.letter(),
    {
        match self {
            Bank::A => "A",
            Bank::B => "B",
        }
    }
}

/// The sibling of the sibling is the bank itself.
pub proof fn law_sibling_twice(bank: Bank)
    ensures
        bank.sibling().sibling() == bank,
        bank.sibling() != bank,
{
}

/// The number of bank sets that a node can hold: one for each bit of the record
/// of owed reboots.
pub const NUM_BANK_SETS: usize = 16;

/// One slot of the machine: the banks of one component.
#[derive(Debug, Clone, Copy, PartialEq, Eq, Structural)]
pub enum BankSet {
    Hsm,
    Bootloader,
    Os,
    Rt,
    Vm1,
    Vm2,
    /// A slot that the deployment defines.
    Custom(u8),
}

impl BankSet {
    /// The place of a set in the records of the non-volatile store.
    pub open spec fn index(self) -> nat {
        match self {
            BankSet::Hsm => 0,
            BankSet::Bootloader => 1,
            BankSet::Os => 2,
            BankSet::Rt => 3,
            BankSet::Vm1 => 4,
            BankSet::Vm2 => 5,
            BankSet::Custom(n) => n as nat,
        }
    }

    /// The place of a set in the records of the non-volatile store.
    pub fn as_index(self) -> (r: usize)
        ensures
            r == self.index(),
    {
        match self {
            BankSet::Hsm => 0,
            BankSet::Bootloader => 1,
            BankSet::Os => 2,
            BankSet::Rt => 3,
            BankSet::Vm1 => 4,
            BankSet::Vm2 => 5,
            BankSet::Custom(n) => n as usize,
        }
    }

    /// The name of a set in messages.
    pub open spec fn label(self) -> Seq<char> {
        match self {
            BankSet::Hsm => "Hsm"@,
            BankSet::Bootloader => "Bootloader"@,
            BankSet::Os => "Os"@,
            BankSet::Rt => "Rt"@,
            BankSet::Vm1 => "Vm1"@,
            BankSet::Vm2 => "Vm2"@,
            BankSet::Custom(_) => "Custom"@,
        }
    }

    /// The name of a set in messages.
    pub fn as_label(self) -> (r: &'static str)
        ensures
            r@ == self.label(),
    {
        match self {
            BankSet::Hsm => "Hsm",
            BankSet::Bootloader => "Bootloader",
            BankSet::Os => "Os",
            BankSet::Rt => "Rt",
            BankSet::Vm1 => "Vm1",
            BankSet::Vm2 => "Vm2",
            BankSet::Custom(_) => "Custom",
        }
    }
}

/// What has to restart for a new bank to take effect.
#[derive(Debug, Clone, Copy, PartialEq, Eq, Structural)]
pub enum ResetKind {
    /// The component alone.
    Local,
    /// The whole node.
    RequiresEcuReset,
}

impl ResetKind {
    /// The name of a reset on the wire.
    pub open spec fn name(self) -> Seq<char> {
        match self {
            ResetKind::Local => "local"@,
            ResetKind::RequiresEcuReset => "requires_ecu_reset"@,
        }
    }

    /// The name of a reset on the wire.
    pub fn as_str(self) -> (r: &'static str)
        ensures
            r@ == self.name(),
    {
        match self {
            ResetKind::Local => "local",
            ResetKind::RequiresEcuReset => "requires_ecu_reset",
        }
    }
}

/// How far an update has come.
#[derive(Debug, Clone, Copy, PartialEq, Eq, Structural)]
pub enum FlashState {
    Initial,
    Queued,
    Preparing,
    Transferring,
    AwaitingActivation,
    Validated,
    AwaitingReboot,
    Activated,
    Committed,
    RolledBack,
    Complete,
    Failed,
}

impl FlashState {
    /// The name of a state in messages.
    pub open spec fn label(self) -> Seq<char> {
        match self {
            FlashState::Initial => "Initial"@,
            FlashState::Queued => "Queued"@,
            FlashState::Preparing => "Preparing"@,
            FlashState::Transferring => "Transferring"@,
            FlashState::AwaitingActivation => "AwaitingActivation"@,
            FlashState::Validated => "Validated"@,
            FlashState::AwaitingReboot => "AwaitingReboot"@,
            FlashState::Activated => "Activated"@,
            FlashState::Committed => "Committed"@,
            FlashState::RolledBack => "RolledBack"@,
            FlashState::Complete => "Complete"@,
            FlashState::Failed => "Failed"@,
        }
    }

    /// The name of a state in messages.
    pub fn as_label(self) -> (r: &'static str)
        ensures
            r@ == self.label(),
    {
        match self {
            FlashState::Initial => "Initial",
            FlashState::Queued => "Queued",
            FlashState::Preparing => "Preparing",
            FlashState::Transferring => "Transferring",
            FlashState::AwaitingActivation => "AwaitingActivation",
            FlashState::Validated => "Validated",
            FlashState::AwaitingReboot => "AwaitingReboot",
            FlashState::Activated => "Activated",
            FlashState::Committed => "Committed",
            FlashState::RolledBack => "RolledBack",
            FlashState::Complete => "Complete",
            FlashState::Failed => "Failed",
        }
    }

    /// The bank pointer has been flipped: an abort comes too late.
    pub open spec fn finalized(self) -> bool {
        self is AwaitingReboot || self is Activated || self is Committed || self is RolledBack
    }
}

/// What the non-volatile store keeps about booting one bank set.
#[derive(Debug, Clone, Copy, PartialEq, Eq, Structural)]
pub struct BankBootState {
    /// The bank that boots next.
    pub active_bank: Bank,
    /// The active bank has been confirmed; otherwise it is on trial.
    pub committed: bool,
    /// The boots that the trial has used up.
    pub boot_count: u8,
}

/// What the non-volatile store keeps about the firmware of one bank.
#[derive(Debug, Clone, Copy, PartialEq, Eq, Structural)]
pub struct FwMeta {
    /// The generation of the install.
    pub gen: u64,
    /// The lowest security version that may still be installed.
    pub min_security_ver: u32,
}

/// What the non-volatile store says about one component at one moment.
#[derive(Debug, Clone, Copy, PartialEq, Eq, Structural)]
pub struct NvView {
    /// The boot state of the component's set; absent where the record is.
    pub boot: Option<BankBootState>,
    /// The firmware record of bank A.
    pub meta_a: Option<FwMeta>,
    /// The firmware record of bank B.
    pub meta_b: Option<FwMeta>,
    /// The node's record of owed reboots, one bit to a bank set.
    pub reboot_owed: u16,
    /// The component's flag in the record of disabled components.
    pub disabled: bool,
}

impl NvView {
    /// The firmware record of a bank.
    pub open spec fn meta(self, bank: Bank) -> Option<FwMeta> {
        match bank {
            Bank::A => self.meta_a,
            Bank::B => self.meta_b,
        }
    }

    /// The firmware record of a bank.
    pub fn meta_of(&self, bank: Bank) -> (r: Option<FwMeta>)
        ensures
            r == self.meta(bank),
    {
        match bank {
            Bank::A => self.meta_a,
            Bank::B => self.meta_b,
        }
    }

    /// The lowest security version that a bank still admits; without a record,
    /// any.
    pub open spec fn security_floor(self, bank: Bank) -> u32 {
        match self.meta(bank) {
            Some(m) => m.min_security_ver,
            None => 0,
        }
    }

    /// The lowest security version that a bank still admits.
    pub fn floor_of(&self, bank: Bank) -> (r: u32)
        ensures
            r == self.security_floor(bank),
    {
        match self.meta_of(bank) {
            Some(m) => m.min_security_ver,
            None => 0,
        }
    }
}

/// The bank that an ECU with this boot state runs from when it starts: bank A for
/// a component with a single bank, else the active bank; bank A where nothing is
/// recorded.
pub open spec fn booted_bank(single_bank: bool, boot: Option<BankBootState>) -> Bank {
    if single_bank {
        Bank::A
    } else {
        match boot {
            Some(s) => s.active_bank,
            None => Bank::A,
        }
    }
}

/// The bank that an ECU with this boot state runs from when it starts.
pub fn bank_at_boot(single_bank: bool, boot: &Option<BankBootState>) -> (r: Bank)
    ensures
        r == booted_bank(single_bank, *boot),
{
    if single_bank {
        return Bank::A;
    }
    match boot {
        Some(s) => s.active_bank,
        None => Bank::A,
    }
}

/// The name of a bank's directory.
pub fn bank_dir_name(bank: Bank) -> (r: &'static str)
    ensures
        r@ == bank.dir_name(),
{
    match bank {
        Bank::A => "bank_a",
        Bank::B => "bank_b",
    }
}

/// The directories and the letters of the banks tell them apart, and each bank has its
/// own.
pub proof fn law_banks_go_by_their_letters(bank: Bank)
    ensures
        bank.letter() == "A"@ <==> bank is A,
        bank.letter() == "B"@ <==> bank is B,
        bank.dir_name() == "bank_a"@ <==> bank is A,
        bank.dir_name() == "bank_b"@ <==> bank is B,
{
    reveal_strlit("A");
    reveal_strlit("B");
    reveal_strlit("bank_a");
    reveal_strlit("bank_b");
    assert("A"@[0] != "B"@[0]);
    assert("bank_a"@[5] != "bank_b"@[5]);
}

/// The sets that every node has stand at six places of the records, each at its own, and
/// a set that the deployment defines stands where the deployment says.
pub proof fn law_sets_have_their_own_places(a: BankSet, b: BankSet)
    ensures
        !(a is Custom) && !(b is Custom) && a.index() == b.index() ==> a == b,
        !(a is Custom) ==> a.index() < 6,
        a matches BankSet::Custom(n) ==> a.index() == n,
        a is Hsm ==> a.index() == 0,
        a is Vm1 ==> a.index() + 1 == BankSet::Vm2.index(),
        a is Rt ==> a.index() + 1 == BankSet::Vm1.index(),
        a is Bootloader ==> a.index() + 1 == BankSet::Os.index(),
{
}

/// The word for a reset says whether the component alone restarts.
pub proof fn law_reset_words(kind: ResetKind)
    ensures
        kind.name() == "local"@ <==> kind is Local,
        kind.name() == "requires_ecu_reset"@ <==> kind is RequiresEcuReset,
{
    reveal_strlit("local");
    reveal_strlit("requires_ecu_reset");
    assert("local"@.len() != "requires_ecu_reset"@.len());
}

/// An update is past the point of no return once its bank waits for the reboot or was
/// activated, confirmed or taken back; until then, and once it is over, it is not.
pub proof fn law_the_point_of_no_return(state: FlashState)
    ensures
        state is Initial || state is Queued || state is Preparing || state is Transferring
            || state is AwaitingActivation || state is Validated || state is Complete || state
            is Failed ==> !state.finalized(),
        state is AwaitingReboot || state is Activated || state is Committed || state is RolledBack
            ==> state.finalized(),
{
}

/// The record and the security floor of a bank are its own; a bank without a record has
/// no floor.
pub proof fn law_records_go_by_bank(nv: NvView, bank: Bank)
    ensures
        nv.meta(Bank::A) == nv.meta_a,
        nv.meta(Bank::B) == nv.meta_b,
        nv.meta(bank) is None ==> nv.security_floor(bank) == 0,
        nv.meta(bank) matches Some(m) ==> nv.security_floor(bank) == m.min_security_ver,
{
}

/// A component starts from the bank that its boot state names; one with a single bank,
/// or without a record, starts from bank A.
pub proof fn law_a_node_starts_from_the_active_bank(single_bank: bool, boot: Option<BankBootState>)
    ensures
        booted_bank(single_bank, boot) is B <==> {
            &&& !single_bank
            &&& boot matches Some(s)
            &&& s.active_bank is B
        },
{
}

} // verus!
