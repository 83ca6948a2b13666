//! The banks of a component in raw partitions.
//!
//! A payload goes straight to the device of its part. The platform may keep a
//! record of its own of a part's image: the record learns of an image before the
//! bank is signed, and is pointed at a bank before the boot selector is.

use crate::bank_provider::{
    bank_refused, BankError, BankFault, IvdBankProvider, SealTask, SwitchAction, SwitchEvent,
    SwitchStep,
};
use crate::bank_seed::same_bytes;
use crate::banks::{Bank, BankBootState, ResetKind};
use crate::firmware::{
    files_view, firmware_to_ivd_identity, identity_written, FileView, IvdFile, IvdIdentity,
};
use crate::hashing::FileHash;
use crate::outside::{hex_of, hex_text, sha256};
use crate::text::{cat2, cat3, cat4, cat5, same_text};
use vstd::prelude::*;

verus! {

/// One part of a bank, and the device of it in either bank.
#[derive(Debug, Clone)]
pub struct PartitionPart {
    /// The name of the part's payload.
    pub file: String,
    pub partition_a: String,
    pub partition_b: String,
    /// The platform keeps a record of the part's image.
    pub record: bool,
}

impl PartitionPart {
    /// Attaches the platform's record.
    pub fn with_record(self) -> (r: PartitionPart)
        ensures
            r == (PartitionPart { record: true, ..self }),
    {
        PartitionPart { record: true, ..self }
    }

    /// The device of the part in a bank.
    pub open spec fn on(self, bank: Bank) -> Seq<char> {
        match bank {
            Bank::A => self.partition_a@,
            Bank::B => self.partition_b@,
        }
    }

    /// The device of the part in a bank.
    pub fn device(&self, bank: Bank) -> (r: &str)
        ensures
            r@ == self.on(bank),
    {
        match bank {
            Bank::A => self.partition_a.as_str(),
            Bank::B => self.partition_b.as_str(),
        }
    }
}

/// The banks of a component in raw partitions.
#[derive(Debug, Clone)]
pub struct PartitionBankProvider {
    /// Looks after what is not in the partitions; it has no activator.
    pub inner: IvdBankProvider,
    pub parts: Vec<PartitionPart>,
    /// A security module is attached.
    pub hsm: bool,
    /// The cryptographic services of the security module are attached.
    pub hsm_crypto: bool,
}

/// The first part from `from` on that a name belongs to.
pub open spec fn part_named(parts: Seq<PartitionPart>, name: Seq<char>, from: nat) -> Option<
    PartitionPart,
>
    decreases parts.len() - from,
{
    if from >= parts.len() {
        None
    } else if parts[from as int].file@ == name {
        Some(parts[from as int])
    } else {
        part_named(parts, name, from + 1)
    }
}

/// The first part from `from` on that the platform keeps a record of.
pub open spec fn next_record(parts: Seq<PartitionPart>, from: nat) -> Option<nat>
    decreases parts.len() - from,
{
    if from >= parts.len() {
        None
    } else if parts[from as int].record {
        Some(from)
    } else {
        next_record(parts, from + 1)
    }
}

/// Where a payload goes: to the device of its part, or to a file where it belongs to
/// none.
pub open spec fn payload_sunk(
    parts: Seq<PartitionPart>,
    bank: Bank,
    name: Seq<char>,
    sink: PayloadSink,
) -> bool {
    match part_named(parts, name, 0) {
        Some(p) => match sink {
            PayloadSink::Device(d) => d@ == p.on(bank),
            PayloadSink::Staging => false,
        },
        None => sink is Staging,
    }
}

/// How taking the digest of a device fails.
#[derive(Debug, Clone)]
pub enum HashFault {
    Open(String),
    Read(String),
}

impl HashFault {
    /// What went wrong.
    pub open spec fn cause(self) -> String {
        match self {
            HashFault::Open(why) => why,
            HashFault::Read(why) => why,
        }
    }
}

/// A digest of a device that could not be taken, in words.
pub open spec fn hash_text(device: Seq<char>, f: HashFault) -> Seq<char> {
    match f {
        HashFault::Open(why) => "open "@ + device + " for hashing: "@ + why@,
        HashFault::Read(why) => "hash "@ + device + ": "@ + why@,
    }
}

/// A digest of a device that could not be taken, in words.
pub fn hash_failed(device: &str, f: &HashFault) -> (r: String)
    ensures
        r@ == hash_text(device@, *f),
{
    match f {
        HashFault::Open(why) => cat4("open ", device, " for hashing: ", why.as_str()),
        HashFault::Read(why) => cat4("hash ", device, ": ", why.as_str()),
    }
}

/// Where a payload goes.
#[derive(Debug, Clone)]
pub enum PayloadSink {
    /// Straight to a device, every write of which must reach the medium.
    Device(String),
    /// To a file, like the payload of a bank in a directory.
    Staging,
}

/// What is to be done next to seal a bank.
#[derive(Debug, Clone)]
pub enum PartSealAction {
    /// Make the directory for the manifest and its signature.
    MakeDir { dir: String },
    /// See whether a device is there.
    LookFor { device: String },
    /// Take the digest of a device.
    Hash { device: String },
    /// Tell the record of a part what its image is.
    TellRecord { part: usize, size: u64, sha256: [u8; 32] },
    /// Ask the security module whether it has its keys.
    AskProvisioned,
    /// Sign the inventory.
    Sign { dir: String, gen: u64, identity: IvdIdentity, files: Vec<IvdFile> },
    /// The bank is sealed, or waits for the security module to get its keys.
    Done { sealed: bool },
    Failed(BankError),
}

/// What was done to seal a bank, and what came of it.
#[derive(Debug)]
pub enum PartSealEvent {
    Started,
    DirMade(Result<(), String>),
    DeviceThere(bool),
    Hashed(Result<FileHash, HashFault>),
    RecordTold(Result<(), BankError>),
    Provisioned(Result<bool, String>),
    Signed(Result<(), String>),
}

/// The sealing of one bank.
#[derive(Debug, Clone)]
pub struct PartSeal {
    /// The part that is to be taken in next.
    pub next: usize,
    /// What was found of the part that is being taken in.
    pub image: Option<(u64, [u8; 32])>,
    /// What was taken in.
    pub files: Vec<IvdFile>,
}

impl PartSeal {
    /// Nothing has been taken in.
    pub fn new() -> (s: PartSeal)
        ensures
            s.next == 0,
            s.image is None,
            s.files@.len() == 0,
    {
        PartSeal { next: 0, image: None, files: Vec::new() }
    }
}

/// What is to be done next to seal a bank.
pub enum PartSealStep {
    MakeDir { dir: Seq<char> },
    LookFor { device: Seq<char> },
    Hash { device: Seq<char> },
    TellRecord { part: nat, size: u64, sha256: Seq<u8> },
    AskProvisioned,
    Sign { dir: Seq<char>, gen: u64, files: Seq<FileView> },
    Done { sealed: bool },
    Failed(BankFault),
}

impl View for PartSealAction {
    type V = PartSealStep;

    open spec fn view(&self) -> PartSealStep {
        match self {
            PartSealAction::MakeDir { dir } => PartSealStep::MakeDir { dir: dir@ },
            PartSealAction::LookFor { device } => PartSealStep::LookFor { device: device@ },
            PartSealAction::Hash { device } => PartSealStep::Hash { device: device@ },
            PartSealAction::TellRecord { part, size, sha256 } => PartSealStep::TellRecord {
                part: *part as nat,
                size: *size,
                sha256: sha256@,
            },
            PartSealAction::AskProvisioned => PartSealStep::AskProvisioned,
            PartSealAction::Sign { dir, gen, identity, files } => PartSealStep::Sign {
                dir: dir@,
                gen: *gen,
                files: files_view(files@),
            },
            PartSealAction::Done { sealed } => PartSealStep::Done { sealed: *sealed },
            PartSealAction::Failed(e) => PartSealStep::Failed(e@),
        }
    }
}

/// What the sealing of a bank has taken in.
pub struct PartSealView {
    pub next: nat,
    pub image: Option<(u64, Seq<u8>)>,
    pub files: Seq<FileView>,
}

impl View for PartSeal {
    type V = PartSealView;

    open spec fn view(&self) -> PartSealView {
        PartSealView {
            next: self.next as nat,
            image: match self.image {
                Some(i) => Some((i.0, i.1@)),
                None => None,
            },
            files: files_view(self.files@),
        }
    }
}

/// Where the records are to be pointed, and what is done then.
#[derive(Debug, Clone, Copy, PartialEq, Eq, Structural)]
pub enum Switch {
    /// A bank is to be activated.
    Activate(Bank),
    /// The record of installs is to go back, and lands on a bank.
    RollBack(Bank),
}

impl Switch {
    /// The bank that the records are to be pointed at.
    pub open spec fn bank(self) -> Bank {
        match self {
            Switch::Activate(b) => b,
            Switch::RollBack(b) => b,
        }
    }
}

/// What is to be done next to switch banks.
#[derive(Debug, Clone)]
pub enum RouteAction {
    /// Point the record of a part at a bank.
    Route { part: usize, bank: Bank },
    /// All records are pointed; the rest is done like for banks in directories.
    Inner(SwitchAction),
    Failed(BankError),
}

/// What is to be done next to switch banks.
pub enum RouteStep {
    Route { part: nat, bank: Bank },
    Inner(SwitchStep),
    Failed(BankFault),
}

impl View for RouteAction {
    type V = RouteStep;

    open spec fn view(&self) -> RouteStep {
        match self {
            RouteAction::Route { part, bank } => RouteStep::Route {
                part: *part as nat,
                bank: *bank,
            },
            RouteAction::Inner(a) => RouteStep::Inner(a@),
            RouteAction::Failed(e) => RouteStep::Failed(e@),
        }
    }
}

/// What was done to switch banks, and what came of it.
#[derive(Debug)]
pub enum RouteEvent {
    Started,
    /// The record of the part at the place was pointed.
    Routed { part: usize, outcome: Result<(), BankError> },
}

impl PartitionBankProvider {
    /// The banks of a component in raw partitions.
    pub fn new(
        inner: IvdBankProvider,
        parts: Vec<PartitionPart>,
        hsm: bool,
        hsm_crypto: bool,
    ) -> (p: PartitionBankProvider)
        ensures
            p.inner == inner,
            p.parts@ == parts@,
            p.hsm == hsm,
            p.hsm_crypto == hsm_crypto,
    {
        PartitionBankProvider { inner, parts, hsm, hsm_crypto }
    }

    /// The answer with the directory that holds the manifest of a bank.
    pub open spec fn metadata_found(self, bank: Bank, r: Result<String, BankError>) -> bool {
        match self.inner.bank_dir(bank) {
            Some(dir) => match r {
                Ok(d) => d@ == dir,
                Err(_) => false,
            },
            None => bank_refused(r, BankFault::Failed("no images_dir configured"@)),
        }
    }

    /// The directory that holds the manifest of a bank and its signature.
    pub fn metadata_dir(&self, bank: Bank) -> (r: Result<String, BankError>)
        ensures
            self.metadata_found(bank, r),
    {
        match self.inner.target_bank_dir(bank) {
            Some(d) => Ok(d),
            None => Err(BankError::Failed("no images_dir configured".to_owned())),
        }
    }

    fn find_part(&self, name: &str) -> (r: Option<&PartitionPart>)
        ensures
            match r {
                Some(p) => part_named(self.parts@, name@, 0) == Some(*p),
                None => part_named(self.parts@, name@, 0) is None,
            },
    {
        let mut i: usize = 0;
        while i < self.parts.len()
            invariant
                i <= self.parts@.len(),
                part_named(self.parts@, name@, 0) == part_named(self.parts@, name@, i as nat),
            decreases self.parts@.len() - i,
        {
            if same_text(self.parts[i].file.as_str(), name) {
                return Some(&self.parts[i]);
            }
            i += 1;
        }
        None
    }

    /// Where the payload of a name goes: to the device of its part, or to a file
    /// where it belongs to none.
    pub fn open_payload_writer(&self, bank: Bank, name: &str) -> (r: PayloadSink)
        ensures
            payload_sunk(self.parts@, bank, name@, r),
    {
        match self.find_part(name) {
            Some(p) => PayloadSink::Device(p.device(bank).to_owned()),
            None => PayloadSink::Staging,
        }
    }

    /// The answer on whether a payload is what was written: the device of its part
    /// decides, or a file where it belongs to none.
    pub open spec fn part_verified(
        self,
        bank: Bank,
        name: Seq<char>,
        expected: Seq<u8>,
        hashed: Result<FileHash, HashFault>,
        r: Result<(), BankError>,
    ) -> bool {
        match part_named(self.parts@, name, 0) {
            Some(p) => match hashed {
                Err(f) => bank_refused(r, BankFault::Failed(hash_text(p.on(bank), f))),
                Ok(found) => if sha256(found.bytes()) == expected {
                    r is Ok
                } else {
                    bank_refused(
                        r,
                        BankFault::Unverifiable(
                            device_mismatch(
                                name,
                                p.on(bank),
                                sha256(found.bytes()),
                                expected,
                            ),
                        ),
                    )
                },
            },
            None => self.inner.verified(
                bank,
                name,
                expected,
                match hashed {
                    Ok(found) => Ok(found),
                    Err(f) => Err(f.cause()),
                },
                r,
            ),
        }
    }

    /// Whether a payload is what was written, from what was read back from where it
    /// went.
    pub fn verify_payload(
        &self,
        bank: Bank,
        name: &str,
        expected_sha256: &[u8; 32],
        hashed: Result<FileHash, HashFault>,
    ) -> (r: Result<(), BankError>)
        ensures
            self.part_verified(bank, name@, expected_sha256@, hashed, r),
    {
        let p = match self.find_part(name) {
            Some(p) => p,
            None => {
                let plain: Result<FileHash, String> = match hashed {
                    Ok(found) => Ok(found),
                    Err(HashFault::Open(why)) => Err(why),
                    Err(HashFault::Read(why)) => Err(why),
                };
                return self.inner.verify_payload(bank, name, expected_sha256, plain);
            },
        };
        match hashed {
            Err(f) => Err(BankError::Failed(hash_failed(p.device(bank), &f))),
            Ok(read) => {
                let found: [u8; 32] = read.finish().0;
                if same_bytes(found.as_slice(), expected_sha256.as_slice()) {
                    Ok(())
                } else {
                    let f = hex_of(found.as_slice());
                    let e = hex_of(expected_sha256.as_slice());
                    let front = cat5(
                        name,
                        ": partition ",
                        p.device(bank),
                        " sha256 mismatch — recomputed ",
                        f.as_str(),
                    );
                    Err(
                        BankError::Unverifiable(cat3(front.as_str(), " vs expected ", e.as_str())),
                    )
                }
            },
        }
    }

    /// The next part is looked for, or the inventory is complete.
    pub open spec fn take_in(self, s: PartSealView, bank: Bank) -> PartSealStep {
        if s.next < self.parts@.len() {
            PartSealStep::LookFor { device: self.parts@[s.next as int].on(bank) }
        } else if s.files.len() == 0 {
            PartSealStep::Failed(
                BankFault::Failed(
                    "partition bank seal: no partition device present to hash — nothing to sign"@,
                ),
            )
        } else if !self.hsm {
            PartSealStep::Failed(
                BankFault::Failed(
                    "partition bank seal: no HSM provider attached — wiring bug"@,
                ),
            )
        } else {
            PartSealStep::AskProvisioned
        }
    }

    /// What was taken in once the pending part is in the inventory.
    pub open spec fn taken_in(self, s: PartSealView, size: u64, sha256: Seq<u8>) -> PartSealView {
        PartSealView {
            next: s.next + 1,
            image: None,
            files: s.files.push(
                FileView { path: self.parts@[s.next as int].file@, sha256, size },
            ),
        }
    }

    /// The next step after something was done to seal a bank, and what was taken in
    /// by then. A part whose device is not there is passed over; the record of a
    /// part learns of its image before the part is in the inventory.
    pub open spec fn seal_next(
        self,
        s: PartSealView,
        task: SealTask,
        event: PartSealEvent,
    ) -> (PartSealStep, PartSealView) {
        match event {
            PartSealEvent::Started => match self.inner.bank_dir(task.bank) {
                Some(dir) => (PartSealStep::MakeDir { dir }, s),
                None => (
                    PartSealStep::Failed(BankFault::Failed("no images_dir configured"@)),
                    s,
                ),
            },
            PartSealEvent::DirMade(Ok(_)) => (self.take_in(s, task.bank), s),
            PartSealEvent::DirMade(Err(why)) => (
                PartSealStep::Failed(
                    BankFault::Failed(
                        "create metadata dir "@ + (match self.inner.bank_dir(task.bank) {
                            Some(dir) => dir,
                            None => Seq::empty(),
                        }) + ": "@ + why@,
                    ),
                ),
                s,
            ),
            PartSealEvent::DeviceThere(there) => if there {
                (PartSealStep::Hash { device: self.parts@[s.next as int].on(task.bank) }, s)
            } else {
                let t = PartSealView { next: s.next + 1, ..s };
                (self.take_in(t, task.bank), t)
            },
            PartSealEvent::Hashed(Ok(h)) => {
                let size = h.bytes().len() as u64;
                let digest = sha256(h.bytes());
                if self.parts@[s.next as int].record {
                    (
                        PartSealStep::TellRecord { part: s.next, size, sha256: digest },
                        PartSealView { image: Some((size, digest)), ..s },
                    )
                } else {
                    let t = self.taken_in(s, size, digest);
                    (self.take_in(t, task.bank), t)
                }
            },
            PartSealEvent::Hashed(Err(f)) => (
                PartSealStep::Failed(
                    BankFault::Failed(hash_text(self.parts@[s.next as int].on(task.bank), f)),
                ),
                s,
            ),
            PartSealEvent::RecordTold(Ok(_)) => match s.image {
                Some(i) => {
                    let t = self.taken_in(s, i.0, i.1);
                    (self.take_in(t, task.bank), t)
                },
                None => (self.take_in(s, task.bank), s),
            },
            PartSealEvent::RecordTold(Err(e)) => (PartSealStep::Failed(e@), s),
            PartSealEvent::Provisioned(Ok(yes)) => if !yes {
                (PartSealStep::Done { sealed: false }, s)
            } else if !self.hsm_crypto {
                (
                    PartSealStep::Failed(
                        BankFault::Failed(
                            "partition bank seal: no HSM crypto handle — IVD signing needs an HsmCryptoProvider (wiring bug)"@,
                        ),
                    ),
                    s,
                )
            } else {
                match self.inner.bank_dir(task.bank) {
                    Some(dir) => (
                        PartSealStep::Sign { dir, gen: task.gen, files: s.files },
                        s,
                    ),
                    None => (
                        PartSealStep::Failed(BankFault::Failed("no images_dir configured"@)),
                        s,
                    ),
                }
            },
            PartSealEvent::Provisioned(Err(why)) => (
                PartSealStep::Failed(
                    BankFault::Failed(
                        "partition bank seal: hsm provisioning probe failed: "@ + why@,
                    ),
                ),
                s,
            ),
            PartSealEvent::Signed(Ok(_)) => (PartSealStep::Done { sealed: true }, s),
            PartSealEvent::Signed(Err(why)) => (
                PartSealStep::Failed(
                    BankFault::Failed("partition bank seal: ivd sign: "@ + why@),
                ),
                s,
            ),
        }
    }

    /// An event can come now: a part is pending where the event is about one, and every
    /// part was taken in or passed over, and something is in the inventory, where it is
    /// about signing.
    pub open spec fn expects(self, s: PartSealView, event: PartSealEvent) -> bool {
        &&& (event is DeviceThere || event is Hashed || (event is RecordTold && s.image is Some))
            ==> s.next < self.parts@.len()
        &&& (event is Provisioned || event is Signed) ==> s.next == self.parts@.len()
            && s.files.len() > 0
    }

    fn go_on(&self, s: &PartSeal, bank: Bank) -> (r: PartSealAction)
        ensures
            r@ == self.take_in(s@, bank),
            !(r is Sign),
    {
        if s.next < self.parts.len() {
            PartSealAction::LookFor { device: self.parts[s.next].device(bank).to_owned() }
        } else if s.files.len() == 0 {
            PartSealAction::Failed(
                BankError::Failed(
                    "partition bank seal: no partition device present to hash — nothing to sign".to_owned(),
                ),
            )
        } else if !self.hsm {
            PartSealAction::Failed(
                BankError::Failed(
                    "partition bank seal: no HSM provider attached — wiring bug".to_owned(),
                ),
            )
        } else {
            PartSealAction::AskProvisioned
        }
    }

    fn list(&self, s: &mut PartSeal, size: u64, sha256: &[u8; 32])
        requires
            old(s).next < self.parts@.len(),
        ensures
            final(s)@ == self.taken_in(old(s)@, size, sha256@),
    {
        let file = IvdFile {
            relative_path: self.parts[s.next].file.clone(),
            sha256: vstd::slice::slice_to_vec(sha256.as_slice()),
            size,
        };
        let ghost before = s.files@;
        let ghost seen = file@;
        let parts: usize = self.parts.len();
        s.files.push(file);
        s.next = s.next + 1;
        s.image = None;
        assert(files_view(s.files@) =~= files_view(before).push(seen));
    }

    /// Takes what was done to seal a bank, and says what is to be done next.
    pub fn seal(&self, s: &mut PartSeal, task: &SealTask, event: PartSealEvent) -> (r:
        PartSealAction)
        requires
            self.expects(old(s)@, event),
        ensures
            (r@, final(s)@) == self.seal_next(old(s)@, *task, event),
            r matches PartSealAction::Sign { dir, gen, identity, files } ==> identity_written(
                task.identity,
                identity,
            ),
    {
        let bank = task.bank;
        let parts: usize = self.parts.len();
        match event {
            PartSealEvent::Started => match self.metadata_dir(bank) {
                Ok(dir) => PartSealAction::MakeDir { dir },
                Err(e) => PartSealAction::Failed(e),
            },
            PartSealEvent::DirMade(outcome) => match outcome {
                Ok(_) => self.go_on(s, bank),
                Err(why) => {
                    let dir = match self.inner.target_bank_dir(bank) {
                        Some(d) => d,
                        None => {
                            let none = String::new();
                            assert(none@ =~= Seq::empty());
                            none
                        },
                    };
                    PartSealAction::Failed(
                        BankError::Failed(
                            cat4("create metadata dir ", dir.as_str(), ": ", why.as_str()),
                        ),
                    )
                },
            },
            PartSealEvent::DeviceThere(there) => {
                if there {
                    PartSealAction::Hash { device: self.parts[s.next].device(bank).to_owned() }
                } else {
                    s.next = s.next + 1;
                    self.go_on(s, bank)
                }
            },
            PartSealEvent::Hashed(outcome) => match outcome {
                Ok(read) => {
                    let h = read.finish();
                    if self.parts[s.next].record {
                        s.image = Some((h.1, h.0));
                        PartSealAction::TellRecord { part: s.next, size: h.1, sha256: h.0 }
                    } else {
                        self.list(s, h.1, &h.0);
                        self.go_on(s, bank)
                    }
                },
                Err(f) => PartSealAction::Failed(
                    BankError::Failed(hash_failed(self.parts[s.next].device(bank), &f)),
                ),
            },
            PartSealEvent::RecordTold(outcome) => match outcome {
                Ok(_) => {
                    if let Some(i) = s.image {
                        self.list(s, i.0, &i.1);
                    }
                    self.go_on(s, bank)
                },
                Err(e) => PartSealAction::Failed(e),
            },
            PartSealEvent::Provisioned(outcome) => match outcome {
                Ok(yes) => {
                    if !yes {
                        PartSealAction::Done { sealed: false }
                    } else if !self.hsm_crypto {
                        PartSealAction::Failed(
                            BankError::Failed(
                                "partition bank seal: no HSM crypto handle — IVD signing needs an HsmCryptoProvider (wiring bug)".to_owned(),
                            ),
                        )
                    } else {
                        match self.metadata_dir(bank) {
                            Ok(dir) => PartSealAction::Sign {
                                dir,
                                gen: task.gen,
                                identity: firmware_to_ivd_identity(&task.identity),
                                files: crate::firmware::copy_files(&s.files),
                            },
                            Err(e) => PartSealAction::Failed(e),
                        }
                    }
                },
                Err(why) => PartSealAction::Failed(
                    BankError::Failed(
                        cat2(
                            "partition bank seal: hsm provisioning probe failed: ",
                            why.as_str(),
                        ),
                    ),
                ),
            },
            PartSealEvent::Signed(outcome) => match outcome {
                Ok(_) => PartSealAction::Done { sealed: true },
                Err(why) => PartSealAction::Failed(
                    BankError::Failed(cat2("partition bank seal: ivd sign: ", why.as_str())),
                ),
            },
        }
    }

    /// The record from `from` on that is pointed next, or the switch itself where
    /// all are pointed.
    pub open spec fn route_from(self, switch: Switch, from: nat) -> RouteStep {
        match next_record(self.parts@, from) {
            Some(i) => RouteStep::Route { part: i, bank: switch.bank() },
            None => RouteStep::Inner(
                match switch {
                    Switch::Activate(b) => self.inner.activate_next(b, SwitchEvent::Started),
                    Switch::RollBack(_) => self.inner.rollback_next(SwitchEvent::Started),
                },
            ),
        }
    }

    /// The next step after something was done to switch banks.
    pub open spec fn switch_next(self, switch: Switch, event: RouteEvent) -> RouteStep {
        match event {
            RouteEvent::Started => self.route_from(switch, 0),
            RouteEvent::Routed { part, outcome } => match outcome {
                Ok(_) => self.route_from(switch, part as nat + 1),
                Err(e) => RouteStep::Failed(e@),
            },
        }
    }

    fn route(&self, switch: Switch, from: usize) -> (r: RouteAction)
        ensures
            r@ == self.route_from(switch, from as nat),
    {
        let mut i: usize = from;
        while i < self.parts.len()
            invariant
                from <= i,
                next_record(self.parts@, from as nat) == next_record(self.parts@, i as nat),
            decreases self.parts@.len() - i,
        {
            if self.parts[i].record {
                let bank = match switch {
                    Switch::Activate(b) => b,
                    Switch::RollBack(b) => b,
                };
                return RouteAction::Route { part: i, bank };
            }
            i += 1;
        }
        RouteAction::Inner(
            match switch {
                Switch::Activate(b) => self.inner.activate(b, SwitchEvent::Started),
                Switch::RollBack(_) => self.inner.rollback(SwitchEvent::Started),
            },
        )
    }

    fn switch_banks(&self, switch: Switch, event: RouteEvent) -> (r: RouteAction)
        requires
            event matches RouteEvent::Routed { part, outcome } ==> part < usize::MAX,
        ensures
            r@ == self.switch_next(switch, event),
    {
        match event {
            RouteEvent::Started => self.route(switch, 0),
            RouteEvent::Routed { part, outcome } => match outcome {
                Ok(_) => self.route(switch, part + 1),
                Err(e) => RouteAction::Failed(e),
            },
        }
    }

    /// Takes what was done to activate a bank, and says what is to be done next:
    /// every record is pointed at the bank before the boot selector is.
    pub fn activate(&self, bank: Bank, event: RouteEvent) -> (r: RouteAction)
        requires
            event matches RouteEvent::Routed { part, outcome } ==> part < usize::MAX,
        ensures
            r@ == self.switch_next(Switch::Activate(bank), event),
    {
        self.switch_banks(Switch::Activate(bank), event)
    }

    /// Takes what was done to confirm the active bank, and says what is to be done
    /// next. No record is pointed anywhere: nothing moves.
    pub fn commit(&self, event: SwitchEvent) -> (r: SwitchAction)
        ensures
            r@ == self.inner.commit_next(event),
    {
        self.inner.commit(event)
    }

    /// The next step after something was done to go back.
    pub open spec fn rollback_step(
        self,
        event: RouteEvent,
        boot: Option<BankBootState>,
        not_in_trial: Seq<char>,
    ) -> RouteStep {
        match IvdBankProvider::landing(boot, not_in_trial) {
            Err(why) => RouteStep::Failed(why),
            Ok(bank) => self.switch_next(Switch::RollBack(bank), event),
        }
    }

    /// Takes what was done to go back, and says what is to be done next: every
    /// record is pointed at the bank that going back lands on, before anything
    /// goes back. Where there is no trial, no record is touched.
    pub fn rollback(
        &self,
        event: RouteEvent,
        boot: &Option<BankBootState>,
        not_in_trial: &str,
    ) -> (r: RouteAction)
        requires
            event matches RouteEvent::Routed { part, outcome } ==> part < usize::MAX,
        ensures
            r@ == self.rollback_step(event, *boot, not_in_trial@),
    {
        match self.inner.rollback_target(boot, not_in_trial) {
            Err(e) => RouteAction::Failed(e),
            Ok(bank) => self.switch_banks(Switch::RollBack(bank), event),
        }
    }

    /// A new bank takes effect only when the node restarts.
    pub fn reset_kind(&self) -> (r: ResetKind)
        ensures
            r is RequiresEcuReset,
    {
        ResetKind::RequiresEcuReset
    }
}

/// The digest mismatch of a device in words.
pub open spec fn device_mismatch(
    name: Seq<char>,
    device: Seq<char>,
    found: Seq<u8>,
    expected: Seq<u8>,
) -> Seq<char> {
    (name + ": partition "@ + device + " sha256 mismatch — recomputed "@ + hex_text(found))
        + " vs expected "@ + hex_text(expected)
}

/// The boot selector is touched only once every record from where the routing
/// stands has been pointed.
pub proof fn law_records_come_before_the_switch(
    p: PartitionBankProvider,
    switch: Switch,
    from: nat,
    i: int,
)
    requires
        p.route_from(switch, from) is Inner,
        from <= i < p.parts@.len(),
    ensures
        !p.parts@[i].record,
    decreases p.parts@.len() - from,
{
    if from < i {
        assert(!p.parts@[from as int].record);
        law_records_come_before_the_switch(p, switch, from + 1, i);
    }
}

/// A record that refuses to be pointed ends the switch: the boot selector stays
/// where it was.
pub proof fn law_refused_route_switches_nothing(
    p: PartitionBankProvider,
    switch: Switch,
    part: usize,
    why: BankError,
)
    ensures
        p.switch_next(switch, RouteEvent::Routed { part, outcome: Err(why) }) == RouteStep::Failed(
            why@,
        ),
{
}

/// Confirming a bank points no record anywhere.
pub proof fn law_commit_never_routes(p: PartitionBankProvider, event: SwitchEvent)
    ensures
        !(p.inner.commit_next(event) is Select),
        !(p.inner.commit_next(event) is RunActivator),
{
}

/// A record that refuses an image ends the sealing before anything is signed, and
/// before a further part is looked at.
pub proof fn law_refused_image_signs_nothing(
    p: PartitionBankProvider,
    s: PartSealView,
    task: SealTask,
    why: BankError,
)
    ensures
        p.seal_next(s, task, PartSealEvent::RecordTold(Err(why))) == (
            PartSealStep::Failed(why@),
            s,
        ),
{
}

/// Nothing is ever signed over an empty inventory, nor before every part was taken in
/// or passed over; and what is signed is the whole inventory.
pub proof fn law_nothing_is_not_signed(
    p: PartitionBankProvider,
    s: PartSealView,
    task: SealTask,
    event: PartSealEvent,
)
    requires
        p.expects(s, event),
    ensures
        p.seal_next(s, task, event).0 matches PartSealStep::Sign { dir, gen, files } ==> {
            &&& files.len() > 0
            &&& files == s.files
            &&& s.next == p.parts@.len()
        },
{
}

/// The event tells what came of a step.
pub open spec fn part_answers(step: PartSealStep, event: PartSealEvent) -> bool {
    match step {
        PartSealStep::MakeDir { .. } => event is DirMade,
        PartSealStep::LookFor { .. } => event is DeviceThere,
        PartSealStep::Hash { .. } => event is Hashed,
        PartSealStep::TellRecord { .. } => event is RecordTold,
        PartSealStep::AskProvisioned => event is Provisioned,
        PartSealStep::Sign { .. } => event is Signed,
        _ => false,
    }
}

/// Sealing starts with its start, and from then on whoever does each step and tells
/// what came of it tells only what is expected.
pub proof fn law_sealing_expects_its_answers(
    p: PartitionBankProvider,
    s: PartSealView,
    task: SealTask,
    event: PartSealEvent,
    answer: PartSealEvent,
)
    requires
        p.expects(s, event),
        s.next <= p.parts@.len(),
        part_answers(p.seal_next(s, task, event).0, answer),
    ensures
        p.expects(s, PartSealEvent::Started),
        p.expects(p.seal_next(s, task, event).1, answer),
        p.seal_next(s, task, event).1.next <= p.parts@.len(),
{
}

/// Bank A of a part is its first device and bank B its second.
pub proof fn law_devices_go_by_their_bank(p: PartitionPart)
    ensures
        p.on(Bank::A) == p.partition_a@,
        p.on(Bank::B) == p.partition_b@,
        Switch::Activate(Bank::A).bank() == Bank::A,
        Switch::Activate(Bank::B).bank() == Bank::B,
        Switch::RollBack(Bank::A).bank() == Bank::A,
        Switch::RollBack(Bank::B).bank() == Bank::B,
{
}

proof fn lemma_part_named(parts: Seq<PartitionPart>, name: Seq<char>, from: nat) -> (i: int)
    ensures
        part_named(parts, name, from) is None ==> forall|j: int|
            from <= j < parts.len() ==> (#[trigger] parts[j]).file@ != name,
        part_named(parts, name, from) is Some ==> from <= i < parts.len() && parts[i].file@ == name
            && part_named(parts, name, from) == Some(parts[i]) && forall|j: int|
            from <= j < i ==> (#[trigger] parts[j]).file@ != name,
    decreases parts.len() - from,
{
    if from >= parts.len() || parts[from as int].file@ == name {
        from as int
    } else {
        lemma_part_named(parts, name, from + 1)
    }
}

/// A payload goes to a device exactly when a part has its name: to the device that the
/// first such part has in that bank.
pub proof fn law_a_payload_goes_to_the_device_of_its_part(
    parts: Seq<PartitionPart>,
    bank: Bank,
    name: Seq<char>,
    sink: PayloadSink,
)
    requires
        payload_sunk(parts, bank, name, sink),
    ensures
        sink is Device <==> exists|i: int|
            0 <= i < parts.len() && (#[trigger] parts[i]).file@ == name,
        sink matches PayloadSink::Device(d) ==> exists|i: int|
            {
                &&& 0 <= i < parts.len()
                &&& (#[trigger] parts[i]).file@ == name
                &&& bank == Bank::A ==> d@ == parts[i].partition_a@
                &&& bank == Bank::B ==> d@ == parts[i].partition_b@
                &&& forall|j: int| 0 <= j < i ==> (#[trigger] parts[j]).file@ != name
            },
{
    let i = lemma_part_named(parts, name, 0);
    if sink is Device {
        assert(parts[i].file@ == name);
    }
}

/// A payload of a part is good exactly when its device could be read and has the
/// promised digest, and one that has another cannot be verified.
pub proof fn law_the_device_decides(
    p: PartitionBankProvider,
    bank: Bank,
    i: int,
    expected: Seq<u8>,
    hashed: Result<FileHash, HashFault>,
    r: Result<(), BankError>,
)
    requires
        0 <= i < p.parts@.len(),
        p.part_verified(bank, p.parts@[i].file@, expected, hashed, r),
    ensures
        r is Ok <==> (hashed matches Ok(found) && sha256(found.bytes()) == expected),
        hashed is Err ==> (r matches Err(e) && e@ is Failed),
        hashed is Ok && sha256(hashed->Ok_0.bytes()) != expected ==> (r matches Err(e) && e@
            is Unverifiable),
{
    let _ = lemma_part_named(p.parts@, p.parts@[i].file@, 0);
}

/// What sealing takes in, part by part: a device that is not there is passed over and
/// adds nothing; one that is there is hashed and added under the name of its part with
/// the digest and size that were found; and where the part has a record, the record is
/// told the same digest and size first.
pub proof fn law_each_part_is_taken_in_once(
    p: PartitionBankProvider,
    s: PartSealView,
    task: SealTask,
    event: PartSealEvent,
)
    requires
        p.expects(s, event),
    ensures
        ({
            let (step, t) = p.seal_next(s, task, event);
            let part = p.parts@[s.next as int];
            &&& event == PartSealEvent::DeviceThere(true) ==> t == s && step == (
            PartSealStep::Hash { device: part.on(task.bank) })
            &&& event == PartSealEvent::DeviceThere(false) ==> t.next == s.next + 1 && t.files
                == s.files
            &&& event matches PartSealEvent::Hashed(Ok(h)) ==> {
                &&& part.record ==> t.next == s.next && t.files == s.files
                &&& part.record ==> (step matches PartSealStep::TellRecord {
                    part: n,
                    size,
                    sha256: d,
                } && n == s.next && size == h.bytes().len() as u64 && d == sha256(h.bytes())
                    && t.image == Some((size, d)))
                &&& !part.record ==> t.next == s.next + 1 && t.files.len() == s.files.len() + 1
                    && t.files.drop_last() == s.files && t.files.last().path == part.file@
                    && t.files.last().sha256 == sha256(h.bytes()) && t.files.last().size
                    == h.bytes().len() as u64
            }
            &&& event is RecordTold && event->RecordTold_0 is Ok ==> (s.image matches Some(i)
                ==> t.next == s.next + 1 && t.files.len() == s.files.len() + 1
                && t.files.drop_last() == s.files && t.files.last().path == part.file@
                && t.files.last().sha256 == i.1 && t.files.last().size == i.0)
            &&& step matches PartSealStep::LookFor { device } ==> t.next < p.parts@.len() && device
                == p.parts@[t.next as int].on(task.bank)
            &&& step is AskProvisioned ==> t.next >= p.parts@.len() && t.files.len() > 0 && p.hsm
        }),
{
    let t = p.seal_next(s, task, event).1;
    if t.files.len() > s.files.len() {
        assert(t.files.drop_last() =~= s.files);
    }
}

/// A bank is signed only by a module that has its keys and signs, into the directory
/// of that bank and for the update's generation; it is sealed only once that went well,
/// and left for later only where the module has no keys yet.
pub proof fn law_a_part_bank_is_sealed_by_signing(
    p: PartitionBankProvider,
    s: PartSealView,
    task: SealTask,
    event: PartSealEvent,
)
    ensures
        ({
            let step = p.seal_next(s, task, event).0;
            &&& step matches PartSealStep::Sign { dir, gen, files } ==> {
                &&& event is Provisioned
                &&& event->Provisioned_0 == Ok::<bool, String>(true)
                &&& p.hsm_crypto
                &&& gen == task.gen
                &&& p.inner.bank_dir(task.bank) == Some(dir)
            }
            &&& step == (PartSealStep::Done { sealed: true }) <==> event is Signed
                && event->Signed_0 is Ok
            &&& step == (PartSealStep::Done { sealed: false }) <==> event is Provisioned
                && event->Provisioned_0 == Ok::<bool, String>(false)
            &&& event is DirMade && event->DirMade_0 is Err ==> step is Failed
            &&& event is Hashed && event->Hashed_0 is Err ==> step is Failed
            &&& event is Provisioned && event->Provisioned_0 is Err ==> step is Failed
            &&& event is Signed && event->Signed_0 is Err ==> step is Failed
        }),
{
}

proof fn lemma_next_record(parts: Seq<PartitionPart>, from: nat)
    ensures
        match next_record(parts, from) {
            Some(i) => from <= i < parts.len() && parts[i as int].record && forall|j: int|
                from <= j < i ==> !(#[trigger] parts[j]).record,
            None => forall|j: int| from <= j < parts.len() ==> !(#[trigger] parts[j]).record,
        },
    decreases parts.len() - from,
{
    if from < parts.len() && !parts[from as int].record {
        lemma_next_record(parts, from + 1);
    }
}

/// The records are pointed one after the other, none left out and each at the bank that
/// is switched to; and once all are, the switch itself is the one that was asked for.
pub proof fn law_every_record_is_pointed_at_the_bank(
    p: PartitionBankProvider,
    switch: Switch,
    event: RouteEvent,
)
    requires
        event matches RouteEvent::Routed { part, outcome } ==> outcome is Ok,
    ensures
        ({
            let from: int = match event {
                RouteEvent::Started => 0,
                RouteEvent::Routed { part, outcome } => part + 1,
            };
            match p.switch_next(switch, event) {
                RouteStep::Route { part, bank } => {
                    &&& bank == switch.bank()
                    &&& from <= part < p.parts@.len()
                    &&& p.parts@[part as int].record
                    &&& forall|j: int| from <= j < part ==> !(#[trigger] p.parts@[j]).record
                },
                RouteStep::Inner(step) => {
                    &&& forall|j: int|
                        from <= j < p.parts@.len() ==> !(#[trigger] p.parts@[j]).record
                    &&& switch matches Switch::Activate(b) ==> step == p.inner.activate_next(
                        b,
                        SwitchEvent::Started,
                    )
                    &&& switch is RollBack ==> step == p.inner.rollback_next(SwitchEvent::Started)
                },
                RouteStep::Failed(_) => false,
            }
        }),
{
    match event {
        RouteEvent::Started => lemma_next_record(p.parts@, 0),
        RouteEvent::Routed { part, outcome } => lemma_next_record(p.parts@, part as nat + 1),
    }
}

/// Going back touches no record where there is no trial, and points every record that
/// it does touch at the bank that is not active.
pub proof fn law_going_back_points_at_the_other_bank(
    p: PartitionBankProvider,
    event: RouteEvent,
    boot: Option<BankBootState>,
    not_in_trial: Seq<char>,
)
    ensures
        boot is None || boot->0.committed ==> p.rollback_step(event, boot, not_in_trial) is Failed,
        p.rollback_step(event, boot, not_in_trial) matches RouteStep::Route { part, bank } ==> boot
            is Some && bank != boot->0.active_bank,
        boot is Some && !boot->0.committed && event is Started ==> !(p.rollback_step(
            event,
            boot,
            not_in_trial,
        ) is Failed),
{
}

/// The manifest of a bank lies in that bank's directory, and nowhere where the banks
/// have none.
pub proof fn law_the_manifest_lies_with_its_bank(
    p: PartitionBankProvider,
    bank: Bank,
    r: Result<String, BankError>,
)
    requires
        p.metadata_found(bank, r),
    ensures
        r is Ok <==> p.inner.bank_dir(bank) is Some,
        r matches Ok(dir) ==> p.inner.bank_dir(bank) == Some(dir@),
        r matches Err(e) ==> e@ is Failed,
{
}

/// Sealing never fails as something that cannot be verified: what is missing or goes
/// wrong is a failure, but for what the record of a part refuses with.
pub proof fn law_sealing_parts_fails_as_a_failure(
    p: PartitionBankProvider,
    s: PartSealView,
    task: SealTask,
    event: PartSealEvent,
)
    requires
        !(event is RecordTold),
        p.seal_next(s, task, event).0 is Failed,
    ensures
        p.seal_next(s, task, event).0->Failed_0 is Failed,
        event is DeviceThere || event is Hashed && event->Hashed_0 is Ok || event is DirMade
            && event->DirMade_0 is Ok ==> !p.hsm || p.seal_next(s, task, event).1.files.len() == 0,
{
}

} // verus!
