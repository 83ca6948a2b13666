//! The banks of a component in directories, and their signed manifests.
//!
//! The provider decides; reading, writing, signing and recording are done by
//! whoever asks it, one action at a time.

use crate::bank_seed::{same_bytes, SeedPass, IVD_MANIFEST_FILE, IVD_SIGNATURE_FILE};
use crate::banks::{bank_at_boot, bank_dir_name, booted_bank, Bank, BankBootState, BankSet, ResetKind};
use crate::firmware::{
    firmware_to_ivd_identity, identity_says, identity_written, ivd_identity_to_firmware,
    FirmwareIdentity, InstalledFile, InstalledFirmware, IvdFile, IvdIdentity,
};
use crate::hashing::FileHash;
use crate::logs::entry::{copy_texts, texts};
use crate::outside::{hex_of, hex_text, sha256};
use crate::paths::{join_path, joined};
use crate::text::{cat2, cat3, cat4, cat5, decimal, decimal_text, same_text};
use vstd::prelude::*;

verus! {

/// Why something could not be done with a bank.
#[derive(Debug, Clone)]
pub enum BankError {
    /// There is no firmware in the bank.
    NotInstalled,
    /// What is in the bank is not what it should be.
    Unverifiable(String),
    Failed(String),
}

/// Why something could not be done with a bank.
pub enum BankFault {
    NotInstalled,
    Unverifiable(Seq<char>),
    Failed(Seq<char>),
}

impl View for BankError {
    type V = BankFault;

    open spec fn view(&self) -> BankFault {
        match self {
            BankError::NotInstalled => BankFault::NotInstalled,
            BankError::Unverifiable(s) => BankFault::Unverifiable(s@),
            BankError::Failed(s) => BankFault::Failed(s@),
        }
    }
}

/// Something could not be done with a bank, and why.
pub open spec fn bank_refused<T>(r: Result<T, BankError>, why: BankFault) -> bool {
    match r {
        Err(e) => e@ == why,
        Ok(_) => false,
    }
}

/// The banks of a component in directories.
#[derive(Debug, Clone)]
pub struct IvdBankProvider {
    pub bank_set: BankSet,
    pub single_bank: bool,
    pub images_dir: Option<String>,
    /// The directory of the set below the directory of images.
    pub dir_name: String,
    /// A security module is attached.
    pub hsm: bool,
    /// The cryptographic services of the security module are attached.
    pub hsm_crypto: bool,
    /// Something runs when a bank is activated.
    pub activator: bool,
    /// The bank that the component ran from when the provider was made.
    pub running_bank: Bank,
    /// The node has a boot selector.
    pub selector: bool,
}

/// What wiping a bank takes.
#[derive(Debug, Clone)]
pub struct PreparePlan {
    /// The directory to make, and to empty of files.
    pub dir: String,
    /// Files of an older layout to remove.
    pub stale: Vec<String>,
}

/// The directories that a bank is completed from and to.
#[derive(Debug, Clone)]
pub struct SeedDirs {
    pub source: String,
    pub target: String,
}

/// A file of a directory.
#[derive(Debug, Clone)]
pub struct DirEntry {
    pub name: String,
    pub is_file: bool,
}

/// What is to be sealed.
#[derive(Debug, Clone)]
pub struct SealTask {
    pub bank: Bank,
    pub identity: FirmwareIdentity,
    pub gen: u64,
    /// The files that the manifest declares.
    pub required: Vec<String>,
}

/// The evidence that a bank holds payload. It is given out only once the directory of
/// the bank was listed and something to sign was found there.
#[derive(Debug)]
pub struct Filled {
    entries: Vec<DirEntry>,
}

impl View for Filled {
    type V = Seq<DirEntry>;

    closed spec fn view(&self) -> Seq<DirEntry> {
        self.entries@
    }
}

impl Filled {
    #[verifier::type_invariant]
    closed spec fn holds(self) -> bool {
        has_payload(self.entries@)
    }
}

/// What is to be done next to seal a bank.
#[derive(Debug)]
pub enum SealAction {
    /// Complete the bank with what the other one has.
    Seed(SeedPass),
    /// List the directory of the bank.
    Look { dir: String },
    /// Ask the security module whether it has its keys; the answer is handed in with
    /// the evidence that there is something to sign.
    AskProvisioned(Filled),
    /// Sign the files of the directory.
    Sign { dir: String, gen: u64, identity: IvdIdentity },
    /// The bank is sealed, or does not need to be.
    Done { sealed: bool },
    Failed(BankError),
}

/// What was done to seal a bank, and what came of it.
#[derive(Debug)]
pub enum SealEvent {
    Started,
    Seeded(Result<(), String>),
    /// The entries of the directory; nothing where it is not there.
    Looked(Option<Vec<DirEntry>>),
    Provisioned { filled: Filled, outcome: Result<bool, String> },
    Signed(Result<(), String>),
}

/// What is to be done next to seal a bank.
pub enum SealStep {
    Seed { source: Seq<char>, target: Seq<char>, required: Seq<Seq<char>> },
    Look { dir: Seq<char> },
    AskProvisioned,
    Sign { dir: Seq<char>, gen: u64 },
    Done { sealed: bool },
    Failed(BankFault),
}

impl View for SealAction {
    type V = SealStep;

    open spec fn view(&self) -> SealStep {
        match self {
            SealAction::Seed(p) => SealStep::Seed {
                source: p.source_dir@,
                target: p.target_dir@,
                required: texts(p.required@),
            },
            SealAction::Look { dir } => SealStep::Look { dir: dir@ },
            SealAction::AskProvisioned(_) => SealStep::AskProvisioned,
            SealAction::Sign { dir, gen, .. } => SealStep::Sign { dir: dir@, gen: *gen },
            SealAction::Done { sealed } => SealStep::Done { sealed: *sealed },
            SealAction::Failed(e) => SealStep::Failed(e@),
        }
    }
}

/// The signed manifest of a bank, as it was read.
#[derive(Debug, Clone)]
pub struct SignedManifest {
    pub gen: u64,
    pub files: Vec<IvdFile>,
    pub identity: IvdIdentity,
    pub signature: Vec<u8>,
    pub raw: Vec<u8>,
    pub ivd_version: u64,
    pub signed_at_unix: u64,
}

/// Why the signed manifest of a bank could not be read.
#[derive(Debug, Clone)]
pub enum ManifestReadError {
    /// There is none.
    Absent,
    Broken(String),
}

/// What is to be done next to activate a bank, or to end a trial.
#[derive(Debug, Clone)]
pub enum SwitchAction {
    /// Run the activator on the directory of the bank.
    RunActivator { dir: String },
    /// Record in the boot selector that the bank boots next.
    Select(Bank),
    /// Confirm the active bank in the record of installs.
    RecordCommit,
    /// Go back in the record of installs.
    RecordRollBack,
    /// Confirm what the boot selector has chosen.
    SelectorCommit,
    /// Go back in the boot selector.
    SelectorRollBack,
    Done,
    Failed(BankError),
}

/// What was done to activate a bank or to end a trial, and what came of it.
#[derive(Debug)]
pub enum SwitchEvent {
    Started,
    ActivatorRan(Result<(), String>),
    Recorded(Result<(), RecordFault>),
    Selected,
}

/// How the record of installs refuses.
#[derive(Debug, Clone)]
pub struct RecordFault {
    /// The active bank was confirmed already.
    pub already_committed: bool,
    pub why: String,
}

/// What is to be done next to activate a bank, or to end a trial.
pub enum SwitchStep {
    RunActivator { dir: Seq<char> },
    Select(Bank),
    RecordCommit,
    RecordRollBack,
    SelectorCommit,
    SelectorRollBack,
    Done,
    Failed(BankFault),
}

impl View for SwitchAction {
    type V = SwitchStep;

    open spec fn view(&self) -> SwitchStep {
        match self {
            SwitchAction::RunActivator { dir } => SwitchStep::RunActivator { dir: dir@ },
            SwitchAction::Select(b) => SwitchStep::Select(*b),
            SwitchAction::RecordCommit => SwitchStep::RecordCommit,
            SwitchAction::RecordRollBack => SwitchStep::RecordRollBack,
            SwitchAction::SelectorCommit => SwitchStep::SelectorCommit,
            SwitchAction::SelectorRollBack => SwitchStep::SelectorRollBack,
            SwitchAction::Done => SwitchStep::Done,
            SwitchAction::Failed(e) => SwitchStep::Failed(e@),
        }
    }
}

/// A file that a bank is sealed over.
pub open spec fn is_payload(e: DirEntry) -> bool {
    e.is_file && e.name@ != IVD_MANIFEST_FILE@ && e.name@ != IVD_SIGNATURE_FILE@
}

/// A directory holds a file that a bank is sealed over.
pub open spec fn has_payload(entries: Seq<DirEntry>) -> bool {
    exists|i: int| 0 <= i < entries.len() && is_payload(#[trigger] entries[i])
}

/// Whether a directory holds nothing that a bank is sealed over.
pub fn bank_dir_is_payload_empty(entries: &Vec<DirEntry>) -> (r: bool)
    ensures
        r == !has_payload(entries@),
{
    let mut i: usize = 0;
    while i < entries.len()
        invariant
            i <= entries@.len(),
            forall|j: int| 0 <= j < i ==> !is_payload(#[trigger] entries@[j]),
        decreases entries@.len() - i,
    {
        if entries[i].is_file && !same_text(entries[i].name.as_str(), IVD_MANIFEST_FILE)
            && !same_text(entries[i].name.as_str(), IVD_SIGNATURE_FILE) {
            assert(is_payload(entries@[i as int]));
            return false;
        }
        i += 1;
    }
    true
}

/// The first thirty-two bytes, filled up with zeros.
pub open spec fn digest32(bytes: Seq<u8>) -> Seq<u8> {
    Seq::new(
        32,
        |i: int|
            if i < bytes.len() {
                bytes[i]
            } else {
                0u8
            },
    )
}

fn to_digest32(bytes: &Vec<u8>) -> (r: [u8; 32])
    ensures
        r@ == digest32(bytes@),
{
    let mut r: [u8; 32] = [0u8;32];
    let mut i: usize = 0;
    while i < 32
        invariant
            i <= 32,
            forall|j: int| 0 <= j < i ==> #[trigger] r@[j] == digest32(bytes@)[j],
            forall|j: int| i <= j < 32 ==> #[trigger] r@[j] == 0,
        decreases 32 - i,
    {
        if i < bytes.len() {
            r[i] = bytes[i];
        }
        i += 1;
    }
    assert(r@ =~= digest32(bytes@));
    r
}

/// The installed files that a manifest lists.
pub open spec fn installed_files(got: Seq<InstalledFile>, files: Seq<IvdFile>) -> bool {
    got.len() == files.len() && forall|i: int|
        0 <= i < got.len() ==> (#[trigger] got[i]).name@ == files[i].relative_path@
            && got[i].sha256@ == digest32(files[i].sha256@)
}

/// The installed firmware that a manifest describes.
pub open spec fn installed_as(fw: InstalledFirmware, bank: Bank, m: SignedManifest) -> bool {
    &&& fw.bank == bank
    &&& fw.gen == m.gen
    &&& installed_files(fw.files@, m.files@)
    &&& identity_says(fw.identity, m.identity)
    &&& fw.signature matches Some(s)
    &&& s@ == m.signature@
    &&& fw.raw matches Some(raw)
    &&& raw@ == m.raw@
    &&& fw.ivd_version == m.ivd_version
    &&& fw.signed_at_unix == m.signed_at_unix
}

/// The files of an older layout before `k`.
pub open spec fn stale_uploads(dir: Seq<char>, set: Seq<char>, k: nat) -> Seq<Seq<char>>
    decreases k,
{
    if k == 0 {
        seq![
            joined(dir, set + "-staged.img"@),
            joined(dir, set + "-kernel-staged.img"@),
            joined(dir, set + "-config-staged.yaml"@),
            joined(dir, set + "-qvm-config-staged.conf"@),
        ]
    } else {
        stale_uploads(dir, set, (k - 1) as nat).push(
            joined(dir, set + "-upload-"@ + decimal_text((k - 1) as nat) + ".tmp"@),
        )
    }
}

/// What reading the firmware of a bank came to.
pub open spec fn firmware_read(
    p: IvdBankProvider,
    bank: Bank,
    read: Result<SignedManifest, ManifestReadError>,
    r: Result<InstalledFirmware, BankError>,
) -> bool {
    if p.images_dir is None {
        bank_refused(r, BankFault::NotInstalled)
    } else {
        match read {
            Ok(m) => match r {
                Ok(fw) => installed_as(fw, bank, m),
                Err(_) => false,
            },
            Err(ManifestReadError::Absent) => bank_refused(r, BankFault::NotInstalled),
            Err(ManifestReadError::Broken(why)) => bank_refused(
                r,
                BankFault::Failed("read_installed: "@ + why@),
            ),
        }
    }
}

/// What wiping a bank takes.
pub open spec fn wipe_planned(p: IvdBankProvider, target: Bank, r: Option<PreparePlan>) -> bool {
    match p.images_dir {
        None => r is None,
        Some(dir) => match r {
            Some(plan) => p.bank_dir(target) == Some(plan.dir@) && texts(plan.stale@)
                == stale_uploads(dir@, p.dir_name@, 16),
            None => false,
        },
    }
}

/// The digest mismatch of a payload in words.
pub open spec fn payload_mismatch(name: Seq<char>, found: Seq<u8>, expected: Seq<u8>) -> Seq<char> {
    name + ": inner sha256 mismatch on disk — recomputed "@ + hex_text(found) + " vs captured "@
        + hex_text(expected)
}

impl IvdBankProvider {
    /// The banks of a component. `boot` is what the non-volatile store says of its
    /// set.
    pub fn new(
        boot: Option<BankBootState>,
        bank_set: BankSet,
        single_bank: bool,
        images_dir: Option<String>,
        dir_name: String,
        hsm: bool,
        activator: bool,
        selector: bool,
    ) -> (p: IvdBankProvider)
        ensures
            p == (IvdBankProvider {
                bank_set,
                single_bank,
                images_dir,
                dir_name,
                hsm,
                hsm_crypto: false,
                activator,
                running_bank: booted_bank(single_bank, boot),
                selector,
            }),
    {
        let running_bank = bank_at_boot(single_bank, &boot);
        IvdBankProvider {
            bank_set,
            single_bank,
            images_dir,
            dir_name,
            hsm,
            hsm_crypto: false,
            activator,
            running_bank,
            selector,
        }
    }

    /// Attaches the cryptographic services of the security module.
    pub fn with_hsm_crypto(self) -> (p: IvdBankProvider)
        ensures
            p == (IvdBankProvider { hsm_crypto: true, ..self }),
    {
        IvdBankProvider { hsm_crypto: true, ..self }
    }

    /// The directory of a bank.
    pub open spec fn bank_dir(self, bank: Bank) -> Option<Seq<char>> {
        match self.images_dir {
            Some(dir) => Some(joined(joined(dir@, self.dir_name@), bank.dir_name())),
            None => None,
        }
    }

    /// The directory of a bank, where the banks are on disk.
    pub fn target_bank_dir(&self, target: Bank) -> (r: Option<String>)
        ensures
            match r {
                Some(d) => self.bank_dir(target) == Some(d@),
                None => self.bank_dir(target) is None,
            },
    {
        match &self.images_dir {
            Some(dir) => {
                let set = join_path(dir.as_str(), self.dir_name.as_str());
                Some(join_path(set.as_str(), bank_dir_name(target)))
            },
            None => None,
        }
    }

    /// What the boot selector has chosen, where there is one.
    pub open spec fn selection(self, selected: Option<Bank>) -> Option<Bank> {
        if self.selector {
            selected
        } else {
            None
        }
    }

    /// The bank that the component is taken to run from.
    pub open spec fn active(self, selected: Option<Bank>) -> Bank {
        match self.selection(selected) {
            Some(b) => b,
            None => self.running_bank,
        }
    }

    /// What the boot selector has chosen for the set; nothing where there is none.
    pub fn selected_bank(&self, selected: Option<Bank>) -> (r: Option<Bank>)
        ensures
            r == self.selection(selected),
    {
        if self.selector {
            selected
        } else {
            None
        }
    }

    /// The bank that the component is taken to run from: what the boot selector has
    /// chosen, else the bank that it ran from when the provider was made.
    pub fn active_bank(&self, selected: Option<Bank>) -> (r: Bank)
        ensures
            r == self.active(selected),
    {
        match self.selected_bank(selected) {
            Some(b) => b,
            None => self.running_bank,
        }
    }

    /// The bank that an update goes to.
    pub open spec fn target(self, selected: Option<Bank>, boot: Option<BankBootState>) -> Bank {
        if self.single_bank {
            Bank::A
        } else {
            match self.selection(selected) {
                Some(b) => b.sibling(),
                None => booted_bank(false, boot).sibling(),
            }
        }
    }

    /// The bank that an update goes to: the sibling of the one that boots, as the
    /// boot selector says, else as the non-volatile store says; and bank A for a
    /// component with a single bank.
    pub fn target_bank(&self, selected: Option<Bank>, boot: &Option<BankBootState>) -> (r: Bank)
        ensures
            r == self.target(selected, *boot),
    {
        if self.single_bank {
            return Bank::A;
        }
        let active = match self.selected_bank(selected) {
            Some(b) => b,
            None => bank_at_boot(false, boot),
        };
        active.other()
    }

    /// What wiping a bank takes; nothing where the banks are not on disk.
    pub fn prepare_target_bank_dir(&self, target: Bank) -> (r: Option<PreparePlan>)
        ensures
            wipe_planned(*self, target, r),
    {
        let base = match &self.images_dir {
            Some(d) => d.as_str(),
            None => {
                return None;
            },
        };
        let set = self.dir_name.as_str();
        let bank_dir = {
            let set_dir = join_path(base, set);
            join_path(set_dir.as_str(), bank_dir_name(target))
        };
        let mut stale: Vec<String> = Vec::new();
        let a = cat2(set, "-staged.img");
        stale.push(join_path(base, a.as_str()));
        let b = cat2(set, "-kernel-staged.img");
        stale.push(join_path(base, b.as_str()));
        let c = cat2(set, "-config-staged.yaml");
        stale.push(join_path(base, c.as_str()));
        let d = cat2(set, "-qvm-config-staged.conf");
        stale.push(join_path(base, d.as_str()));
        assert(texts(stale@) =~= stale_uploads(base@, set@, 0));
        let mut n: u64 = 0;
        while n < 16
            invariant
                n <= 16,
                texts(stale@) == stale_uploads(base@, set@, n as nat),
            decreases 16 - n,
        {
            let ghost before = stale@;
            let number = decimal(n);
            let name = cat4(set, "-upload-", number.as_str(), ".tmp");
            let path = join_path(base, name.as_str());
            stale.push(path);
            assert(texts(stale@) =~= texts(before).push(path@));
            n += 1;
        }
        Some(PreparePlan { dir: bank_dir, stale })
    }

    /// The directories that a bank is completed from and to.
    pub open spec fn seeding(self, target: Bank, boot: Option<BankBootState>) -> Result<
        Option<(Seq<char>, Seq<char>)>,
        BankFault,
    > {
        if self.single_bank || self.images_dir is None {
            Ok(None)
        } else {
            match boot {
                None => Err(BankFault::Failed("no boot state"@)),
                Some(b) => if b.active_bank == target {
                    Ok(None)
                } else {
                    Ok(
                        Some((self.bank_dir(b.active_bank)->0, self.bank_dir(target)->0)),
                    )
                },
            }
        }
    }

    /// The directories that a bank is completed from and to; nothing for a single
    /// bank, for banks that are not on disk, and for the active bank itself.
    pub fn seed_target_from_active(&self, target: Bank, boot: &Option<BankBootState>) -> (r: Result<
        Option<SeedDirs>,
        BankError,
    >)
        ensures
            match r {
                Ok(None) => self.seeding(target, *boot) == Ok::<
                    Option<(Seq<char>, Seq<char>)>,
                    BankFault,
                >(None),
                Ok(Some(d)) => self.seeding(target, *boot) == Ok::<
                    Option<(Seq<char>, Seq<char>)>,
                    BankFault,
                >(Some((d.source@, d.target@))),
                Err(e) => self.seeding(target, *boot) == Err::<
                    Option<(Seq<char>, Seq<char>)>,
                    BankFault,
                >(e@),
            },
    {
        if self.single_bank || self.images_dir.is_none() {
            return Ok(None);
        }
        let active = match boot {
            Some(b) => b.active_bank,
            None => {
                return Err(BankError::Failed("no boot state".to_owned()));
            },
        };
        if active == target {
            return Ok(None);
        }
        match (self.target_bank_dir(active), self.target_bank_dir(target)) {
            (Some(source), Some(target)) => Ok(Some(SeedDirs { source, target })),
            _ => Ok(None),
        }
    }

    /// How a bank is called in messages.
    pub open spec fn bank_id(self, bank: Bank) -> Seq<char> {
        self.dir_name@ + "/"@ + bank.dir_name()
    }

    /// The bank is looked at, where it is on disk.
    pub open spec fn looking(self, bank: Bank) -> SealStep {
        match self.bank_dir(bank) {
            Some(dir) => SealStep::Look { dir },
            None => SealStep::Done { sealed: false },
        }
    }

    /// The next step after something was done to seal a bank. A bank that is not on
    /// disk, is empty, or whose security module has no keys yet stays unsealed;
    /// anything else that keeps a bank from being sealed is a failure.
    pub open spec fn seal_next(
        self,
        task: SealTask,
        event: SealEvent,
        boot: Option<BankBootState>,
    ) -> SealStep {
        let id = self.bank_id(task.bank);
        match event {
            SealEvent::Started => match self.seeding(task.bank, boot) {
                Err(why) => SealStep::Failed(why),
                Ok(Some(d)) => SealStep::Seed {
                    source: d.0,
                    target: d.1,
                    required: texts(task.required@),
                },
                Ok(None) => self.looking(task.bank),
            },
            SealEvent::Seeded(Ok(_)) => self.looking(task.bank),
            SealEvent::Seeded(Err(why)) => match self.seeding(task.bank, boot) {
                Ok(Some(d)) => SealStep::Failed(
                    BankFault::Failed(("bank seed from "@ + d.0 + " to "@ + d.1 + ": "@) + why@),
                ),
                _ => SealStep::Failed(BankFault::Failed("bank seed: "@ + why@)),
            },
            SealEvent::Looked(found) => match found {
                None => SealStep::Done { sealed: false },
                Some(entries) => if !has_payload(entries@) {
                    SealStep::Done { sealed: false }
                } else if !self.hsm {
                    SealStep::Failed(
                        BankFault::Failed(
                            "ivd sign "@ + id + ": no HSM provider attached — wiring bug"@,
                        ),
                    )
                } else {
                    SealStep::AskProvisioned
                },
            },
            SealEvent::Provisioned { filled, outcome } => match outcome {
                Ok(yes) => if !yes {
                    SealStep::Done { sealed: false }
                } else if !self.hsm_crypto {
                    SealStep::Failed(
                        BankFault::Failed(
                            "ivd sign "@ + id
                                + ": no HSM crypto handle attached — IVD signing needs an HsmCryptoProvider (wiring bug)"@,
                        ),
                    )
                } else {
                    match self.bank_dir(task.bank) {
                        Some(dir) => SealStep::Sign { dir, gen: task.gen },
                        None => SealStep::Done { sealed: false },
                    }
                },
                Err(why) => SealStep::Failed(
                    BankFault::Failed(
                        "ivd sign "@ + id + ": hsm provisioning probe failed: "@ + why@,
                    ),
                ),
            },
            SealEvent::Signed(Ok(_)) => SealStep::Done { sealed: true },
            SealEvent::Signed(Err(why)) => SealStep::Failed(
                BankFault::Failed("ivd sign "@ + id + ": "@ + why@),
            ),
        }
    }

    fn look(&self, bank: Bank) -> (r: SealAction)
        ensures
            r@ == self.looking(bank),
            !(r is Sign),
    {
        match self.target_bank_dir(bank) {
            Some(dir) => SealAction::Look { dir },
            None => SealAction::Done { sealed: false },
        }
    }

    /// Takes what was done to seal a bank, and says what is to be done next.
    pub fn seal(&self, task: &SealTask, event: SealEvent, boot: &Option<BankBootState>) -> (r:
        SealAction)
        ensures
            r@ == self.seal_next(*task, event, *boot),
            r matches SealAction::Sign { dir, gen, identity } ==> identity_written(
                task.identity,
                identity,
            ),
            r matches SealAction::Seed(pass) ==> pass.wf() && pass.next == 0,
            r matches SealAction::AskProvisioned(filled) ==> (event matches SealEvent::Looked(Some(
                entries,
            )) && filled@ == entries@ && has_payload(entries@)),
            r is Sign ==> (event matches SealEvent::Provisioned { filled, outcome } && has_payload(
                filled@,
            )),
    {
        let bank = task.bank;
        let id = cat3(self.dir_name.as_str(), "/", bank_dir_name(bank));
        match event {
            SealEvent::Started => match self.seed_target_from_active(bank, boot) {
                Err(e) => SealAction::Failed(e),
                Ok(Some(d)) => SealAction::Seed(
                    SeedPass::new(d.source, d.target, copy_texts(&task.required)),
                ),
                Ok(None) => self.look(bank),
            },
            SealEvent::Seeded(outcome) => match outcome {
                Ok(_) => self.look(bank),
                Err(why) => match self.seed_target_from_active(bank, boot) {
                    Ok(Some(d)) => {
                        let front = cat5(
                            "bank seed from ",
                            d.source.as_str(),
                            " to ",
                            d.target.as_str(),
                            ": ",
                        );
                        SealAction::Failed(
                            BankError::Failed(cat2(front.as_str(), why.as_str())),
                        )
                    },
                    _ => SealAction::Failed(BankError::Failed(cat2("bank seed: ", why.as_str()))),
                },
            },
            SealEvent::Looked(found) => match found {
                None => SealAction::Done { sealed: false },
                Some(entries) => {
                    if bank_dir_is_payload_empty(&entries) {
                        SealAction::Done { sealed: false }
                    } else if !self.hsm {
                        SealAction::Failed(
                            BankError::Failed(
                                cat3(
                                    "ivd sign ",
                                    id.as_str(),
                                    ": no HSM provider attached — wiring bug",
                                ),
                            ),
                        )
                    } else {
                        SealAction::AskProvisioned(Filled { entries })
                    }
                },
            },
            SealEvent::Provisioned { filled, outcome } => {
                proof {
                    use_type_invariant(&filled);
                }
                match outcome {
                    Ok(yes) => {
                        if !yes {
                            SealAction::Done { sealed: false }
                        } else if !self.hsm_crypto {
                            SealAction::Failed(
                                BankError::Failed(
                                    cat3(
                                        "ivd sign ",
                                        id.as_str(),
                                        ": no HSM crypto handle attached — IVD signing needs an HsmCryptoProvider (wiring bug)",
                                    ),
                                ),
                            )
                        } else {
                            match self.target_bank_dir(bank) {
                                Some(dir) => SealAction::Sign {
                                    dir,
                                    gen: task.gen,
                                    identity: firmware_to_ivd_identity(&task.identity),
                                },
                                None => SealAction::Done { sealed: false },
                            }
                        }
                    },
                    Err(why) => SealAction::Failed(
                        BankError::Failed(
                            cat4(
                                "ivd sign ",
                                id.as_str(),
                                ": hsm provisioning probe failed: ",
                                why.as_str(),
                            ),
                        ),
                    ),
                }
            },
            SealEvent::Signed(outcome) => match outcome {
                Ok(_) => SealAction::Done { sealed: true },
                Err(why) => SealAction::Failed(
                    BankError::Failed(cat4("ivd sign ", id.as_str(), ": ", why.as_str())),
                ),
            },
        }
    }

    /// The firmware of a bank, from what reading its signed manifest gave. Nothing
    /// is said of the signature: whoever gets it can check it.
    pub fn read_installed(
        &self,
        bank: Bank,
        read: Result<SignedManifest, ManifestReadError>,
    ) -> (r: Result<InstalledFirmware, BankError>)
        ensures
            firmware_read(*self, bank, read, r),
    {
        if self.images_dir.is_none() {
            return Err(BankError::NotInstalled);
        }
        let m = match read {
            Ok(m) => m,
            Err(ManifestReadError::Absent) => {
                return Err(BankError::NotInstalled);
            },
            Err(ManifestReadError::Broken(why)) => {
                return Err(BankError::Failed(cat2("read_installed: ", why.as_str())));
            },
        };
        let mut files: Vec<InstalledFile> = Vec::new();
        let mut i: usize = 0;
        while i < m.files.len()
            invariant
                i <= m.files@.len(),
                files@.len() == i,
                forall|j: int|
                    0 <= j < i ==> (#[trigger] files@[j]).name@ == m.files@[j].relative_path@
                        && files@[j].sha256@ == digest32(m.files@[j].sha256@),
            decreases m.files@.len() - i,
        {
            files.push(
                InstalledFile {
                    name: m.files[i].relative_path.clone(),
                    sha256: to_digest32(&m.files[i].sha256),
                },
            );
            i += 1;
        }
        let identity = ivd_identity_to_firmware(&m.identity);
        Ok(
            InstalledFirmware {
                bank,
                gen: m.gen,
                files,
                identity,
                signature: Some(m.signature),
                raw: Some(m.raw),
                ivd_version: m.ivd_version,
                signed_at_unix: m.signed_at_unix,
            },
        )
    }

    /// What verifying a payload comes to.
    pub open spec fn verified(
        self,
        bank: Bank,
        name: Seq<char>,
        expected: Seq<u8>,
        hashed: Result<FileHash, String>,
        r: Result<(), BankError>,
    ) -> bool {
        match self.bank_dir(bank) {
            None => bank_refused(r, BankFault::Failed("no images_dir configured"@)),
            Some(dir) => match hashed {
                Err(why) => bank_refused(
                    r,
                    BankFault::Failed(
                        "verify_payload read "@ + joined(dir, name) + ": "@ + why@,
                    ),
                ),
                Ok(found) => if sha256(found.bytes()) == expected {
                    r is Ok
                } else {
                    bank_refused(
                        r,
                        BankFault::Unverifiable(payload_mismatch(name, sha256(found.bytes()), expected)),
                    )
                },
            },
        }
    }

    /// Whether a payload is what was written, from what was read back.
    pub fn verify_payload(
        &self,
        bank: Bank,
        name: &str,
        expected_sha256: &[u8; 32],
        hashed: Result<FileHash, String>,
    ) -> (r: Result<(), BankError>)
        ensures
            self.verified(bank, name@, expected_sha256@, hashed, r),
    {
        let dir = match self.target_bank_dir(bank) {
            Some(d) => d,
            None => {
                return Err(BankError::Failed("no images_dir configured".to_owned()));
            },
        };
        match hashed {
            Err(why) => {
                let path = join_path(dir.as_str(), name);
                Err(
                    BankError::Failed(
                        cat4("verify_payload read ", path.as_str(), ": ", why.as_str()),
                    ),
                )
            },
            Ok(read) => {
                let found: [u8; 32] = read.finish().0;
                if same_bytes(found.as_slice(), expected_sha256.as_slice()) {
                    Ok(())
                } else {
                    let f = hex_of(found.as_slice());
                    let e = hex_of(expected_sha256.as_slice());
                    Err(
                        BankError::Unverifiable(
                            cat5(
                                name,
                                ": inner sha256 mismatch on disk — recomputed ",
                                f.as_str(),
                                " vs captured ",
                                e.as_str(),
                            ),
                        ),
                    )
                }
            },
        }
    }

    /// The selection of a bank, where the node has a boot selector.
    pub open spec fn selecting(self, bank: Bank) -> SwitchStep {
        if self.selector {
            SwitchStep::Select(bank)
        } else {
            SwitchStep::Done
        }
    }

    /// The next step after something was done to activate a bank: the activator
    /// runs before the boot selector is touched.
    pub open spec fn activate_next(self, bank: Bank, event: SwitchEvent) -> SwitchStep {
        match event {
            SwitchEvent::Started => if self.activator && self.images_dir is Some {
                SwitchStep::RunActivator { dir: self.bank_dir(bank)->0 }
            } else {
                self.selecting(bank)
            },
            SwitchEvent::ActivatorRan(Ok(_)) => self.selecting(bank),
            SwitchEvent::ActivatorRan(Err(why)) => SwitchStep::Failed(
                BankFault::Failed("bank activation failed: "@ + why@),
            ),
            _ => SwitchStep::Done,
        }
    }

    fn select(&self, bank: Bank) -> (r: SwitchAction)
        ensures
            r@ == self.selecting(bank),
    {
        if self.selector {
            SwitchAction::Select(bank)
        } else {
            SwitchAction::Done
        }
    }

    /// Takes what was done to activate a bank, and says what is to be done next.
    pub fn activate(&self, bank: Bank, event: SwitchEvent) -> (r: SwitchAction)
        ensures
            r@ == self.activate_next(bank, event),
    {
        match event {
            SwitchEvent::Started => {
                if self.activator {
                    if let Some(dir) = self.target_bank_dir(bank) {
                        return SwitchAction::RunActivator { dir };
                    }
                }
                self.select(bank)
            },
            SwitchEvent::ActivatorRan(outcome) => match outcome {
                Ok(_) => self.select(bank),
                Err(why) => SwitchAction::Failed(
                    BankError::Failed(cat2("bank activation failed: ", why.as_str())),
                ),
            },
            _ => SwitchAction::Done,
        }
    }

    /// The next step after something was done to confirm the active bank. A bank
    /// that was confirmed before is confirmed.
    pub open spec fn commit_next(self, event: SwitchEvent) -> SwitchStep {
        let selector = if self.selector {
            SwitchStep::SelectorCommit
        } else {
            SwitchStep::Done
        };
        match event {
            SwitchEvent::Started => SwitchStep::RecordCommit,
            SwitchEvent::Recorded(Ok(_)) => selector,
            SwitchEvent::Recorded(Err(f)) => if f.already_committed {
                selector
            } else {
                SwitchStep::Failed(BankFault::Failed(f.why@))
            },
            _ => SwitchStep::Done,
        }
    }

    /// Takes what was done to confirm the active bank, and says what is to be done
    /// next.
    pub fn commit(&self, event: SwitchEvent) -> (r: SwitchAction)
        ensures
            r@ == self.commit_next(event),
    {
        match event {
            SwitchEvent::Started => SwitchAction::RecordCommit,
            SwitchEvent::Recorded(outcome) => {
                if let Err(f) = outcome {
                    if !f.already_committed {
                        return SwitchAction::Failed(BankError::Failed(f.why));
                    }
                }
                if self.selector {
                    SwitchAction::SelectorCommit
                } else {
                    SwitchAction::Done
                }
            },
            _ => SwitchAction::Done,
        }
    }

    /// The next step after something was done to go back to the other bank.
    pub open spec fn rollback_next(self, event: SwitchEvent) -> SwitchStep {
        match event {
            SwitchEvent::Started => SwitchStep::RecordRollBack,
            SwitchEvent::Recorded(Ok(_)) => if self.selector {
                SwitchStep::SelectorRollBack
            } else {
                SwitchStep::Done
            },
            SwitchEvent::Recorded(Err(f)) => SwitchStep::Failed(BankFault::Failed(f.why@)),
            _ => SwitchStep::Done,
        }
    }

    /// Takes what was done to go back to the other bank, and says what is to be
    /// done next.
    pub fn rollback(&self, event: SwitchEvent) -> (r: SwitchAction)
        ensures
            r@ == self.rollback_next(event),
    {
        match event {
            SwitchEvent::Started => SwitchAction::RecordRollBack,
            SwitchEvent::Recorded(outcome) => match outcome {
                Ok(_) => if self.selector {
                    SwitchAction::SelectorRollBack
                } else {
                    SwitchAction::Done
                },
                Err(f) => SwitchAction::Failed(BankError::Failed(f.why)),
            },
            _ => SwitchAction::Done,
        }
    }

    /// The bank that going back lands on, or why there is none: only a trial can be
    /// gone back from, and it lands on the sibling of the active bank.
    pub open spec fn landing(boot: Option<BankBootState>, not_in_trial: Seq<char>) -> Result<
        Bank,
        BankFault,
    > {
        match boot {
            None => Err(BankFault::Failed("no boot state"@)),
            Some(b) => if b.committed {
                Err(BankFault::Failed(not_in_trial))
            } else {
                Ok(b.active_bank.sibling())
            },
        }
    }

    /// The bank that going back lands on. `not_in_trial` is how the record of
    /// installs refuses where there is no trial.
    pub fn rollback_target(&self, boot: &Option<BankBootState>, not_in_trial: &str) -> (r: Result<
        Bank,
        BankError,
    >)
        ensures
            match r {
                Ok(b) => Self::landing(*boot, not_in_trial@) == Ok::<Bank, BankFault>(b),
                Err(e) => Self::landing(*boot, not_in_trial@) == Err::<Bank, BankFault>(e@),
            },
    {
        match boot {
            None => Err(BankError::Failed("no boot state".to_owned())),
            Some(b) => {
                if b.committed {
                    Err(BankError::Failed(not_in_trial.to_owned()))
                } else {
                    Ok(b.active_bank.other())
                }
            },
        }
    }

    /// What has to restart for a new bank to take effect.
    pub open spec fn kind_of_reset(self, declared: ResetKind) -> ResetKind {
        if self.activator {
            declared
        } else {
            ResetKind::Local
        }
    }

    /// What has to restart for a new bank to take effect: what the activator
    /// declares, or the component alone.
    pub fn reset_kind(&self, declared: ResetKind) -> (r: ResetKind)
        ensures
            r == self.kind_of_reset(declared),
    {
        if self.activator {
            declared
        } else {
            ResetKind::Local
        }
    }
}

/// An update of a component with two banks never goes to the bank that boots.
pub proof fn law_target_is_never_the_active_bank(
    p: IvdBankProvider,
    selected: Option<Bank>,
    boot: Option<BankBootState>,
)
    requires
        !p.single_bank,
    ensures
        p.selection(selected) matches Some(b) ==> p.target(selected, boot) == b.sibling()
            && p.target(selected, boot) != b,
        p.selection(selected) is None && boot is Some ==> p.target(selected, boot)
            != boot->0.active_bank,
{
}

/// The boot selector is touched only when the activator has done its work: a failed
/// activation leaves it where it was.
pub proof fn law_failed_activator_selects_nothing(p: IvdBankProvider, bank: Bank, why: String)
    ensures
        p.activate_next(bank, SwitchEvent::ActivatorRan(Err(why))) is Failed,
        p.activator && p.images_dir is Some ==> !(p.activate_next(bank, SwitchEvent::Started)
            is Select),
{
}

/// A bank with payloads is never passed over in silence while the security module
/// has its keys: it is sealed, or sealing it fails.
pub proof fn law_payloads_are_sealed_or_fail(
    p: IvdBankProvider,
    task: SealTask,
    boot: Option<BankBootState>,
    entries: Vec<DirEntry>,
    filled: Filled,
)
    requires
        has_payload(entries@),
        filled@ == entries@,
        p.images_dir is Some,
    ensures
        ({
            let looked = p.seal_next(task, SealEvent::Looked(Some(entries)), boot);
            looked is AskProvisioned || looked is Failed
        }),
        ({
            let told = p.seal_next(
                task,
                SealEvent::Provisioned { filled, outcome: Ok(true) },
                boot,
            );
            told is Sign || told is Failed
        }),
{
}

/// An update of a component with two banks goes to the bank beside the one that boots: the
/// one that the boot selector has chosen, else the one that the boot state names, else
/// bank A. A component with a single bank is written in place.
pub proof fn law_an_update_goes_beside_what_boots(
    p: IvdBankProvider,
    selected: Option<Bank>,
    boot: Option<BankBootState>,
)
    ensures
        p.single_bank ==> p.target(selected, boot) is A,
        !p.single_bank ==> {
            let boots_b = if p.selector && selected is Some {
                selected->0 is B
            } else {
                boot is Some && boot->0.active_bank is B
            };
            p.target(selected, boot) is A <==> boots_b
        },
        p.active(selected) == (if p.selector && selected is Some {
            selected->0
        } else {
            p.running_bank
        }),
        p.selection(selected) is Some <==> p.selector && selected is Some,
{
}

/// A bank has a directory exactly where the banks are on disk, and each bank its own.
pub proof fn law_each_bank_has_its_directory(p: IvdBankProvider, bank: Bank)
    ensures
        p.bank_dir(bank) is Some <==> p.images_dir is Some,
        p.bank_dir(bank) matches Some(dir) ==> dir == joined(
            joined(p.images_dir->0@, p.dir_name@),
            if bank is A {
                "bank_a"@
            } else {
                "bank_b"@
            },
        ),
{
}

/// Wiping a bank wipes its own directory, and only where the banks are on disk.
pub proof fn law_a_wipe_is_for_its_bank(p: IvdBankProvider, target: Bank, r: Option<PreparePlan>)
    requires
        wipe_planned(p, target, r),
    ensures
        r is Some <==> p.images_dir is Some,
        r matches Some(plan) ==> p.bank_dir(target) == Some(plan.dir@) && plan.stale@.len() == 20,
{
    if let Some(plan) = r {
        reveal_with_fuel(stale_uploads, 17);
        assert(stale_uploads(p.images_dir->0@, p.dir_name@, 16).len() == 20);
        assert(texts(plan.stale@).len() == plan.stale@.len());
    }
}

/// A bank is completed from the one that boots exactly where there are two, they are on
/// disk, and the bank is not itself the one that boots; a lost boot state fails it.
pub proof fn law_a_bank_is_completed_from_what_boots(
    p: IvdBankProvider,
    target: Bank,
    boot: Option<BankBootState>,
)
    ensures
        ({
            let on_disk = !p.single_bank && p.images_dir is Some;
            &&& p.seeding(target, boot) is Err <==> on_disk && boot is None
            &&& (p.seeding(target, boot) matches Ok(Some(_))) <==> on_disk && boot is Some
                && boot->0.active_bank != target
            &&& p.seeding(target, boot) matches Ok(Some(d)) ==> p.bank_dir(boot->0.active_bank)
                == Some(d.0) && p.bank_dir(target) == Some(d.1)
        }),
{
}

/// What a bank is sealed over are its files, but for the signed manifest and its
/// signature themselves.
pub proof fn law_what_a_bank_is_sealed_over(entries: Seq<DirEntry>, i: int)
    requires
        0 <= i < entries.len(),
    ensures
        entries[i].is_file && entries[i].name@ != "ivd-manifest.cbor"@ && entries[i].name@
            != "ivd-signature.bin"@ ==> has_payload(entries),
        entries.len() == 1 && (!entries[i].is_file || entries[i].name@ == "ivd-manifest.cbor"@
            || entries[i].name@ == "ivd-signature.bin"@) ==> !has_payload(entries),
{
    if entries[i].is_file && entries[i].name@ != "ivd-manifest.cbor"@ && entries[i].name@
        != "ivd-signature.bin"@ {
        assert(is_payload(entries[i]));
    }
}

/// Sealing a bank completes it, looks at it, asks for the keys, signs it, in this order.
/// It ends sealed exactly where signing went well; it ends unsealed only where the bank is
/// not on disk, holds nothing, or the security module has no keys yet; anything else that
/// keeps it from being sealed is a failure. The directory and the generation that are
/// signed are those of the task.
pub proof fn law_sealing_signs_what_is_there(
    p: IvdBankProvider,
    task: SealTask,
    event: SealEvent,
    boot: Option<BankBootState>,
)
    ensures
        ({
            let step = p.seal_next(task, event, boot);
            &&& step == (SealStep::Done { sealed: true }) <==> (event matches SealEvent::Signed(
                Ok(_),
            ))
            &&& step matches SealStep::Sign { dir, gen } ==> {
                &&& p.bank_dir(task.bank) == Some(dir)
                &&& gen == task.gen
                &&& p.hsm_crypto
                &&& event matches SealEvent::Provisioned { filled, outcome }
                &&& outcome == Ok::<bool, String>(true)
            }
            &&& step is AskProvisioned <==> p.hsm && (event matches SealEvent::Looked(Some(entries))
                && has_payload(entries@))
            &&& step is Look ==> event is Started || (event matches SealEvent::Seeded(Ok(_)))
            &&& step matches SealStep::Look { dir } ==> p.bank_dir(task.bank) == Some(dir)
            &&& step matches SealStep::Seed { source, target, required } ==> {
                &&& event is Started
                &&& required == texts(task.required@)
                &&& p.seeding(task.bank, boot) == Ok::<Option<(Seq<char>, Seq<char>)>, BankFault>(
                    Some((source, target)),
                )
            }
            &&& (event matches SealEvent::Seeded(Err(_))) ==> step is Failed
            &&& (event matches SealEvent::Signed(Err(_))) ==> step is Failed
            &&& (event matches SealEvent::Provisioned { filled, outcome: Err(_) }) ==> step
                is Failed
            &&& (event matches SealEvent::Provisioned { filled, outcome: Ok(yes) } && yes)
                && !p.hsm_crypto ==> step is Failed
            &&& (event matches SealEvent::Looked(Some(entries)) && has_payload(entries@)) && !p.hsm
                ==> step is Failed
            &&& step == (SealStep::Done { sealed: false }) ==> {
                ||| p.images_dir is None
                ||| (event matches SealEvent::Looked(None))
                ||| (event matches SealEvent::Looked(Some(entries)) && !has_payload(entries@))
                ||| (event matches SealEvent::Provisioned { filled, outcome: Ok(yes) } && !yes)
            }
        }),
{
}

/// Firmware is read from a bank exactly where the banks are on disk and its manifest can
/// be read; it is then what the manifest says, bank, generation, files, signature and
/// all. A bank without a manifest has no firmware, and a broken one is a failure.
pub proof fn law_installed_firmware_is_the_manifests(
    p: IvdBankProvider,
    bank: Bank,
    read: Result<SignedManifest, ManifestReadError>,
    r: Result<InstalledFirmware, BankError>,
    i: int,
)
    requires
        firmware_read(p, bank, read, r),
    ensures
        r is Ok <==> p.images_dir is Some && read is Ok,
        r matches Ok(fw) ==> {
            let m = read->Ok_0;
            &&& fw.bank == bank
            &&& fw.gen == m.gen
            &&& fw.ivd_version == m.ivd_version
            &&& fw.signed_at_unix == m.signed_at_unix
            &&& fw.signature matches Some(s)
            &&& s@ == m.signature@
            &&& fw.raw matches Some(raw)
            &&& raw@ == m.raw@
            &&& fw.files@.len() == m.files@.len()
            &&& 0 <= i < m.files@.len() ==> {
                &&& fw.files@[i].name@ == m.files@[i].relative_path@
                &&& m.files@[i].sha256@.len() == 32 ==> fw.files@[i].sha256@
                    =~= m.files@[i].sha256@
            }
        },
        r matches Err(e) ==> {
            &&& p.images_dir is None ==> e@ is NotInstalled
            &&& p.images_dir is Some ==> match read->Err_0 {
                ManifestReadError::Absent => e@ is NotInstalled,
                ManifestReadError::Broken(_) => e@ is Failed,
            }
        },
{
    if let Ok(fw) = r {
        if 0 <= i < read->Ok_0.files@.len() {
            assert(fw.files@[i].name@ == read->Ok_0.files@[i].relative_path@);
        }
    }
}

/// A payload in a bank is good exactly where it can be read and has the digest that is
/// expected; one that has another is not what was written, and one that cannot be read is
/// a failure.
pub proof fn law_a_payload_is_what_was_written(
    p: IvdBankProvider,
    bank: Bank,
    name: Seq<char>,
    expected: Seq<u8>,
    hashed: Result<FileHash, String>,
    r: Result<(), BankError>,
)
    requires
        p.verified(bank, name, expected, hashed, r),
    ensures
        r is Ok <==> p.images_dir is Some && (hashed matches Ok(found) && sha256(found.bytes())
            == expected),
        r matches Err(e) ==> (e@ is Unverifiable <==> p.images_dir is Some && hashed is Ok),
        r matches Err(e) ==> e@ is Unverifiable || e@ is Failed,
{
}

/// Activating a bank runs the activator first, where there is one and the banks are on
/// disk, and on that bank's directory; then the boot selector is set to that bank, where
/// there is one. Where the activator fails nothing is selected.
pub proof fn law_activating_selects_that_bank(p: IvdBankProvider, bank: Bank, event: SwitchEvent)
    ensures
        ({
            let step = p.activate_next(bank, event);
            let ran = event matches SwitchEvent::ActivatorRan(Ok(_));
            &&& step is RunActivator <==> event is Started && p.activator && p.images_dir is Some
            &&& step matches SwitchStep::RunActivator { dir } ==> p.bank_dir(bank) == Some(dir)
            &&& step is Select <==> p.selector && (ran || (event is Started && !(p.activator
                && p.images_dir is Some)))
            &&& step matches SwitchStep::Select(b) ==> b == bank
            &&& step is Failed <==> (event matches SwitchEvent::ActivatorRan(Err(_)))
            &&& !(step is RecordCommit) && !(step is RecordRollBack) && !(step is SelectorCommit)
                && !(step is SelectorRollBack)
        }),
{
}

/// Confirming records it first, and then has the boot selector confirm, where there is
/// one; a bank that was confirmed before counts as confirmed, and any other refusal ends
/// it before the selector is touched. Going back does the same the other way, and there
/// any refusal ends it. Neither ever does what the other is for.
pub proof fn law_ending_a_trial_records_it_first(p: IvdBankProvider, event: SwitchEvent)
    ensures
        ({
            let commit = p.commit_next(event);
            let back = p.rollback_next(event);
            let recorded = event matches SwitchEvent::Recorded(Ok(_));
            let before = event matches SwitchEvent::Recorded(Err(f)) && f.already_committed;
            &&& commit is RecordCommit <==> event is Started
            &&& commit is SelectorCommit <==> p.selector && (recorded || before)
            &&& commit is Failed <==> (event matches SwitchEvent::Recorded(Err(f))
                && !f.already_committed)
            &&& !(commit is RecordRollBack) && !(commit is SelectorRollBack) && !(commit is Select)
            &&& back is RecordRollBack <==> event is Started
            &&& back is SelectorRollBack <==> p.selector && recorded
            &&& back is Failed <==> (event matches SwitchEvent::Recorded(Err(_)))
            &&& !(back is RecordCommit) && !(back is SelectorCommit) && !(back is Select)
            &&& recorded && !p.selector ==> commit is Done && back is Done
        }),
{
}

/// Going back from a trial lands on the other bank, and there is no way back without a
/// trial.
pub proof fn law_going_back_lands_on_the_other_bank(
    boot: Option<BankBootState>,
    not_in_trial: Seq<char>,
)
    ensures
        IvdBankProvider::landing(boot, not_in_trial) is Ok <==> boot is Some && !boot->0.committed,
        IvdBankProvider::landing(boot, not_in_trial) matches Ok(bank) ==> bank
            != boot->0.active_bank,
        boot is Some && boot->0.committed ==> IvdBankProvider::landing(boot, not_in_trial) == Err::<
            Bank,
            BankFault,
        >(BankFault::Failed(not_in_trial)),
{
}

/// Only an activator can declare that the node has to restart.
pub proof fn law_the_activator_says_what_restarts(p: IvdBankProvider, declared: ResetKind)
    ensures
        p.kind_of_reset(declared) is RequiresEcuReset <==> p.activator && declared
            is RequiresEcuReset,
{
}

/// Ending a trial fails with the reason that the record of installs gave, and activating
/// with the one that the activator gave.
pub proof fn law_switching_fails_with_its_cause(
    p: IvdBankProvider,
    bank: Bank,
    f: RecordFault,
    why: String,
)
    ensures
        p.rollback_next(SwitchEvent::Recorded(Err(f))) == SwitchStep::Failed(
            BankFault::Failed(f.why@),
        ),
        !f.already_committed ==> p.commit_next(SwitchEvent::Recorded(Err(f)))
            == SwitchStep::Failed(BankFault::Failed(f.why@)),
        p.activate_next(bank, SwitchEvent::ActivatorRan(Err(why))) == SwitchStep::Failed(
            BankFault::Failed("bank activation failed: "@ + why@),
        ),
{
}

/// Completing a bank fails, before anything is looked at, exactly where two banks are on
/// disk and nothing is known of which one boots.
pub proof fn law_seeding_needs_to_know_what_boots(
    p: IvdBankProvider,
    target: Bank,
    boot: Option<BankBootState>,
)
    ensures
        p.seeding(target, boot) is Err <==> !p.single_bank && p.images_dir is Some && boot is None,
        p.seeding(target, boot) matches Err(why) ==> why is Failed,
{
}

} // verus!
