//! A component in the words of the machine interface.

use crate::backend::admission::NodeResolution;
use crate::backend::data::{did_text, health_did};
use crate::backend::dids::{
    did_registry, entries_spec, entry_by_did, find_did, lemma_by_did, registry, DidNumbers,
};
use crate::backend::setup::ComponentBackend;
use crate::banks::{NvView, ResetKind, NUM_BANK_SETS};
use crate::error::{declined, BackendError, BackendFault, MachineError, MachineFault};
use crate::install_router_diag::machine_as_backend;
use crate::json::{json_of, null_value};
use crate::lifecycle::{RuntimeState, RuntimeStatus};
use crate::text::{cat2, cat3, cat5, decimal, decimal_text, upper_hex, upper_hex_text};
use vstd::prelude::*;

verus! {

/// How a component is updated.
#[derive(Debug, Clone, Copy, PartialEq, Eq, Structural)]
pub struct FlashCaps {
    pub dual_bank: bool,
    pub supports_rollback: bool,
    pub supports_trial_boot: bool,
    pub abortable_after_finalize: bool,
    pub reset_kind: ResetKind,
}

/// How a component runs.
#[derive(Debug, Clone, Copy, PartialEq, Eq, Structural)]
pub struct LifecycleCaps {
    pub restartable: bool,
    pub has_runtime_state: bool,
}

/// What a component does with keys.
#[derive(Debug, Clone, Copy, PartialEq, Eq, Structural)]
pub struct HsmCaps {
    pub supports_csr: bool,
    pub supports_key_install: bool,
}

/// What a component can do.
#[derive(Debug, Clone, Copy, PartialEq, Eq, Structural)]
pub struct MachineCapabilities {
    pub did_store: bool,
    pub flash: Option<FlashCaps>,
    pub lifecycle: Option<LifecycleCaps>,
    pub hsm: Option<HsmCaps>,
    pub dtcs: bool,
    pub clear_dtcs: bool,
}

/// A value of a component.
#[derive(Debug, Clone)]
pub struct MachineDid {
    pub key: u16,
    pub id: String,
    pub name: String,
    pub writable: bool,
}

/// A value of a component.
pub struct MachineDidView {
    pub key: u16,
    pub id: Seq<char>,
    pub name: Seq<char>,
    pub writable: bool,
}

impl View for MachineDid {
    type V = MachineDidView;

    open spec fn view(&self) -> MachineDidView {
        MachineDidView { key: self.key, id: self.id@, name: self.name@, writable: self.writable }
    }
}

/// What a list of values says.
pub open spec fn dids_view(dids: Seq<MachineDid>) -> Seq<MachineDidView> {
    dids.map_values(|d: MachineDid| d@)
}

/// When a value was written.
#[derive(Debug, Clone, Copy, PartialEq, Eq, Structural)]
pub enum DidKind {
    Factory,
    Runtime,
}

/// What a key is good for.
#[derive(Debug, Clone, Copy, PartialEq, Eq, Structural)]
pub enum KeyType {
    EcP256,
    Aes256,
    Aes128,
    Ed25519,
    HmacSha256,
}

/// The name of what a key is good for.
pub open spec fn key_type_name(t: KeyType) -> Seq<char> {
    match t {
        KeyType::EcP256 => "EC-P256"@,
        KeyType::Aes256 => "AES-256"@,
        KeyType::Aes128 => "AES-128"@,
        KeyType::Ed25519 => "Ed25519"@,
        KeyType::HmacSha256 => "HMAC-SHA256"@,
    }
}

/// The name of what a key is good for.
pub fn key_type_label(t: KeyType) -> (r: &'static str)
    ensures
        r@ == key_type_name(t),
{
    match t {
        KeyType::EcP256 => "EC-P256",
        KeyType::Aes256 => "AES-256",
        KeyType::Aes128 => "AES-128",
        KeyType::Ed25519 => "Ed25519",
        KeyType::HmacSha256 => "HMAC-SHA256",
    }
}

/// What a slot of the security module holds.
#[derive(Debug, Clone, Copy, PartialEq, Eq, Structural)]
pub enum HeldKind {
    Key(KeyType),
    /// A counter that only goes up.
    Monotonic,
}

/// A slot of the security module.
#[derive(Debug, Clone)]
pub struct SlotInfo {
    pub key_id: String,
    pub kind: HeldKind,
    pub has_certificate: bool,
    pub allowed_ops: Vec<u8>,
    /// The public half of the key, where it could be read.
    pub public_key: Option<Vec<u8>>,
}

/// What is told of a slot.
#[derive(Debug, Clone)]
pub enum SlotKind {
    Key(String),
    Monotonic,
}

/// What is told of a slot. Nothing secret is in it.
#[derive(Debug, Clone)]
pub struct KeyDescriptor {
    pub key_id: String,
    pub kind: SlotKind,
    pub has_certificate: bool,
    pub allowed_ops: Vec<u8>,
    pub public_key: Option<Vec<u8>>,
}

/// What is told of all slots.
#[derive(Debug, Clone)]
pub struct KeyInventory {
    pub provisioned: bool,
    pub keys: Vec<KeyDescriptor>,
}

/// How far the security module has been set up.
#[derive(Debug, Clone, Copy, PartialEq, Eq, Structural)]
pub enum ProvisioningState {
    Unprovisioned,
    Provisioned,
}

/// Where keys are asked for.
#[derive(Debug, Clone)]
pub enum KeySource {
    /// The cryptographic services that were attached.
    Crypto,
    /// The key store at a place.
    Keystore(String),
}

/// A slot that has a public half.
pub open spec fn has_public_half(kind: HeldKind) -> bool {
    kind == HeldKind::Key(KeyType::EcP256) || kind == HeldKind::Key(KeyType::Ed25519)
}

/// Whether a slot has a public half that is worth telling.
pub fn wants_pubkey(kind: &HeldKind) -> (r: bool)
    ensures
        r == has_public_half(*kind),
{
    match kind {
        HeldKind::Key(KeyType::EcP256) => true,
        HeldKind::Key(KeyType::Ed25519) => true,
        _ => false,
    }
}

/// What is told of a slot is what it is: of a key without a public half no bytes
/// are told.
pub open spec fn tells(d: KeyDescriptor, s: SlotInfo) -> bool {
    &&& d.key_id@ == s.key_id@
    &&& match s.kind {
        HeldKind::Key(t) => match d.kind {
            SlotKind::Key(name) => name@ == key_type_name(t),
            SlotKind::Monotonic => false,
        },
        HeldKind::Monotonic => d.kind is Monotonic,
    }
    &&& d.has_certificate == s.has_certificate
    &&& d.allowed_ops@ == s.allowed_ops@
    &&& match (has_public_half(s.kind), s.public_key) {
        (true, Some(k)) => match d.public_key {
            Some(p) => p@ == k@,
            None => false,
        },
        _ => d.public_key is None,
    }
}

fn describe_slot(s: SlotInfo) -> (d: KeyDescriptor)
    ensures
        tells(d, s),
{
    let shown = wants_pubkey(&s.kind);
    let kind = match s.kind {
        HeldKind::Key(t) => SlotKind::Key(key_type_label(t).to_owned()),
        HeldKind::Monotonic => SlotKind::Monotonic,
    };
    KeyDescriptor {
        key_id: s.key_id,
        kind,
        has_certificate: s.has_certificate,
        allowed_ops: s.allowed_ops,
        public_key: if shown {
            s.public_key
        } else {
            None
        },
    }
}

/// What a refusal by the engine is answered with.
pub open spec fn backend_as_machine(e: BackendFault) -> MachineFault {
    match e {
        BackendFault::EntityNotFound(s) => MachineFault::NotFound(s),
        BackendFault::ParameterNotFound(s) => MachineFault::NotFound(s),
        BackendFault::OperationNotFound(s) => MachineFault::NotFound(s),
        BackendFault::OutputNotFound(s) => MachineFault::NotFound(s),
        BackendFault::SecurityRequired(level) => MachineFault::PolicyRejected(
            "security level "@ + decimal_text(level as nat) + " required"@,
        ),
        BackendFault::SessionRequired(s) => MachineFault::PolicyRejected(
            "session change required: "@ + s,
        ),
        BackendFault::NotSupported(_) => MachineFault::NotSupported("backend operation"@),
        BackendFault::InvalidRequest(s) => MachineFault::InvalidArgument(s),
        BackendFault::Busy(s) => MachineFault::Busy(s),
        BackendFault::Timeout => MachineFault::Internal("timeout"@),
        BackendFault::Protocol(s) => MachineFault::Internal(s),
        BackendFault::Transport(s) => MachineFault::Internal(s),
        BackendFault::Internal(s) => MachineFault::Internal(s),
        BackendFault::RateLimited(s) => MachineFault::Internal(s),
        BackendFault::EcuError(message, nrc, sid) => MachineFault::Internal(
            ("ECU error NRC=0x"@ + upper_hex_text(nrc as nat, 2) + " SID=0x"@ + upper_hex_text(
                sid as nat,
                2,
            ) + ": "@) + message,
        ),
        BackendFault::UpdateInProgress(s) => MachineFault::Busy(s),
        BackendFault::UnsupportedMediaType(s) => MachineFault::WrongTarget(s),
    }
}

/// What a refusal by the engine is answered with.
pub fn map_backend_error(e: BackendError) -> (r: MachineError)
    ensures
        r@ == backend_as_machine(e@),
{
    match e {
        BackendError::EntityNotFound(s) => MachineError::NotFound(s),
        BackendError::ParameterNotFound(s) => MachineError::NotFound(s),
        BackendError::OperationNotFound(s) => MachineError::NotFound(s),
        BackendError::OutputNotFound(s) => MachineError::NotFound(s),
        BackendError::SecurityRequired(level) => {
            let l = decimal(level as u64);
            MachineError::PolicyRejected(cat3("security level ", l.as_str(), " required"))
        },
        BackendError::SessionRequired(s) => MachineError::PolicyRejected(
            cat2("session change required: ", s.as_str()),
        ),
        BackendError::NotSupported(_) => MachineError::NotSupported("backend operation".to_owned()),
        BackendError::InvalidRequest(s) => MachineError::InvalidArgument(s),
        BackendError::Busy(s) => MachineError::Busy(s),
        BackendError::Timeout => MachineError::Internal("timeout".to_owned()),
        BackendError::Protocol(s) => MachineError::Internal(s),
        BackendError::Transport(s) => MachineError::Internal(s),
        BackendError::Internal(s) => MachineError::Internal(s),
        BackendError::RateLimited(s) => MachineError::Internal(s),
        BackendError::EcuError { message, nrc, sid } => {
            let n = upper_hex(nrc as u32, 2);
            let s = upper_hex(sid as u32, 2);
            let front = cat5("ECU error NRC=0x", n.as_str(), " SID=0x", s.as_str(), ": ");
            MachineError::Internal(cat2(front.as_str(), message.as_str()))
        },
        BackendError::UpdateInProgress(s) => MachineError::Busy(s),
        BackendError::UnsupportedMediaType(s) => MachineError::WrongTarget(s),
    }
}

/// What the fittings and the configuration of a component let it do.
pub open spec fn machine_capabilities(b: ComponentBackend, declared: ResetKind) -> MachineCapabilities {
    MachineCapabilities {
        did_store: true,
        flash: Some(
            FlashCaps {
                dual_bank: !b.setup.config.single_bank,
                supports_rollback: b.setup.config.supports_rollback,
                supports_trial_boot: !b.setup.config.single_bank,
                abortable_after_finalize: false,
                reset_kind: b.reset_needed(declared),
            },
        ),
        lifecycle: Some(
            LifecycleCaps {
                restartable: true,
                has_runtime_state: b.setup.vm_service_addr is Some,
            },
        ),
        hsm: if b.setup.fittings.hsm {
            Some(HsmCaps { supports_csr: true, supports_key_install: true })
        } else {
            None
        },
        dtcs: true,
        clear_dtcs: true,
    }
}

/// The capabilities with requests for certificates: whoever could not install keys
/// still cannot.
pub open spec fn with_csr(c: MachineCapabilities) -> MachineCapabilities {
    MachineCapabilities {
        hsm: match c.hsm {
            Some(h) => Some(HsmCaps { supports_csr: true, ..h }),
            None => Some(HsmCaps { supports_csr: true, supports_key_install: false }),
        },
        ..c
    }
}

/// The values of the registry before `k` that a component has.
pub open spec fn known_dids(n: DidNumbers, guest: bool, k: nat) -> Seq<MachineDidView>
    decreases k,
{
    if k == 0 {
        Seq::empty()
    } else {
        let before = known_dids(n, guest, (k - 1) as nat);
        let e = registry(n)[k - 1];
        if guest || !health_did(n, e.did) {
            before.push(
                MachineDidView { key: e.did, id: e.id, name: e.name, writable: e.writable },
            )
        } else {
            before
        }
    }
}

/// The values before `k` that were written at run time and are not in the
/// registry.
pub open spec fn other_dids(n: DidNumbers, dids: Seq<u16>, k: nat) -> Seq<MachineDidView>
    decreases k,
{
    if k == 0 {
        Seq::empty()
    } else {
        let before = other_dids(n, dids, (k - 1) as nat);
        if entry_by_did(registry(n), dids[k - 1], 0) is Some {
            before
        } else {
            before.push(
                MachineDidView {
                    key: dids[k - 1],
                    id: "runtime_"@ + did_text(dids[k - 1]),
                    name: "Runtime DID 0x"@ + did_text(dids[k - 1]),
                    writable: true,
                },
            )
        }
    }
}

/// A component in the words of the machine interface.
#[derive(Debug, Clone)]
pub struct ComponentAdapter {
    pub inner: ComponentBackend,
    pub capabilities: MachineCapabilities,
    pub csr_keystore: Option<String>,
    /// The cryptographic services that keys are asked for are attached.
    pub csr_crypto: bool,
}

/// The answer on whether a value may be written.
pub open spec fn did_write_judged(kind: DidKind, r: Result<(), MachineError>) -> bool {
    match kind {
        DidKind::Factory => declined(
            r,
            MachineFault::PolicyRejected("factory DIDs are read-only after provisioning"@),
        ),
        DidKind::Runtime => r is Ok,
    }
}

/// The answer on what writing a value came to.
pub open spec fn did_stored(outcome: Result<bool, String>, r: Result<(), MachineError>) -> bool {
    match outcome {
        Ok(true) => r is Ok,
        Ok(false) => declined(r, MachineFault::Storage("runtime DID store full"@)),
        Err(why) => declined(r, MachineFault::Storage(why@)),
    }
}

/// The answer with a value.
pub open spec fn did_found(
    key: u16,
    found: Option<Vec<u8>>,
    r: Result<Vec<u8>, MachineError>,
) -> bool {
    match found {
        Some(bytes) => r == Ok::<Vec<u8>, MachineError>(bytes),
        None => declined(r, MachineFault::NotFound("DID 0x"@ + did_text(key))),
    }
}

/// The answer on giving an update up, and what becomes of the component.
pub open spec fn install_given_up(
    before: ComponentAdapter,
    after: ComponentAdapter,
    nv: NvView,
    r: Result<NodeResolution, MachineError>,
) -> bool {
    match r {
        Ok(n) => !before.inner.finalized() && after.inner.book@ == before.inner.book@.cleared() && n
            == before.inner.resolution(nv),
        Err(e) => before.inner.finalized() && after == before && e@ == MachineFault::PolicyRejected(
            "cannot abort: install already finalized"@,
        ),
    }
}

/// The answer with a request for a certificate.
pub open spec fn csr_answered(
    outcome: Result<Vec<u8>, String>,
    r: Result<Vec<u8>, MachineError>,
) -> bool {
    match outcome {
        Ok(der) => r == Ok::<Vec<u8>, MachineError>(der),
        Err(why) => declined(r, MachineFault::Internal("csr generation failed: "@ + why@)),
    }
}

/// The answer with what is told of the slots.
pub open spec fn keys_told(
    state: Option<Result<ProvisioningState, String>>,
    slots: Result<Vec<SlotInfo>, String>,
    r: Result<KeyInventory, MachineError>,
) -> bool {
    match slots {
        Err(why) => declined(r, MachineFault::Internal("list slots failed: "@ + why@)),
        Ok(s) => match r {
            Ok(inv) => {
                &&& inv.provisioned == (state == Some(
                    Ok::<ProvisioningState, String>(ProvisioningState::Provisioned),
                ))
                &&& inv.keys@.len() == s@.len()
                &&& forall|i: int|
                    0 <= i < inv.keys@.len() ==> tells(#[trigger] inv.keys@[i], s@[i])
            },
            Err(_) => false,
        },
    }
}

fn push_did(r: &mut Vec<MachineDid>, d: MachineDid)
    ensures
        dids_view(final(r)@) == dids_view(old(r)@).push(d@),
{
    r.push(d);
    assert(dids_view(r@) =~= dids_view(old(r)@).push(d@));
}

impl ComponentAdapter {
    /// A component with the capabilities that it has by its fittings.
    pub fn new(inner: ComponentBackend, declared: ResetKind) -> (a: ComponentAdapter)
        ensures
            a.inner == inner,
            a.capabilities == machine_capabilities(inner, declared),
            a.csr_keystore is None,
            !a.csr_crypto,
    {
        let hsm = if inner.has_hsm_provider() {
            Some(HsmCaps { supports_csr: true, supports_key_install: true })
        } else {
            None
        };
        let capabilities = MachineCapabilities {
            did_store: true,
            flash: Some(
                FlashCaps {
                    dual_bank: !inner.setup.config.single_bank,
                    supports_rollback: inner.setup.config.supports_rollback,
                    supports_trial_boot: !inner.setup.config.single_bank,
                    abortable_after_finalize: false,
                    reset_kind: inner.reset_kind(declared),
                },
            ),
            lifecycle: Some(
                LifecycleCaps { restartable: true, has_runtime_state: inner.has_vm_service() },
            ),
            hsm,
            dtcs: true,
            clear_dtcs: true,
        };
        ComponentAdapter { inner, capabilities, csr_keystore: None, csr_crypto: false }
    }

    fn allow_csr(c: MachineCapabilities) -> (r: MachineCapabilities)
        ensures
            r == with_csr(c),
    {
        let hsm = match c.hsm {
            Some(h) => Some(
                HsmCaps { supports_csr: true, supports_key_install: h.supports_key_install },
            ),
            None => Some(HsmCaps { supports_csr: true, supports_key_install: false }),
        };
        MachineCapabilities { hsm, ..c }
    }

    /// Attaches a key store that certificates are requested for.
    pub fn with_csr_keystore(self, keystore: String) -> (a: ComponentAdapter)
        ensures
            a == (ComponentAdapter {
                capabilities: with_csr(self.capabilities),
                csr_keystore: Some(keystore),
                ..self
            }),
    {
        let capabilities = Self::allow_csr(self.capabilities);
        ComponentAdapter { capabilities, csr_keystore: Some(keystore), ..self }
    }

    /// Attaches cryptographic services that certificates are requested from.
    pub fn with_csr_crypto(self) -> (a: ComponentAdapter)
        ensures
            a == (ComponentAdapter {
                capabilities: with_csr(self.capabilities),
                csr_crypto: true,
                ..self
            }),
    {
        let capabilities = Self::allow_csr(self.capabilities);
        ComponentAdapter { capabilities, csr_crypto: true, ..self }
    }

    /// The engine of the component.
    pub fn inner(&self) -> (r: &ComponentBackend)
        ensures
            *r == self.inner,
    {
        &self.inner
    }

    /// All values of the component. `runtime_dids` are those that were written at
    /// run time.
    pub fn list_dids(&self, runtime_dids: &Vec<u16>) -> (r: Vec<MachineDid>)
        ensures
            dids_view(r@) == known_dids(
                self.inner.setup.did_numbers,
                self.inner.setup.vm_service_addr is Some,
                registry(self.inner.setup.did_numbers).len(),
            ) + other_dids(self.inner.setup.did_numbers, runtime_dids@, runtime_dids@.len()),
    {
        let n = self.inner.setup.did_numbers;
        let guest = self.inner.has_vm_service();
        let reg = did_registry(&n);
        let mut r: Vec<MachineDid> = Vec::new();
        let mut i: usize = 0;
        assert(entries_spec(reg@).len() == reg@.len());
        assert(dids_view(r@) =~= known_dids(n, guest, 0));
        while i < reg.len()
            invariant
                i <= reg@.len(),
                reg@.len() == registry(n).len(),
                entries_spec(reg@) == registry(n),
                dids_view(r@) == known_dids(n, guest, i as nat),
            decreases reg@.len() - i,
        {
            assert(entries_spec(reg@)[i as int] == reg@[i as int]@);
            let e = reg[i];
            if guest || (e.did != n.guest_state && e.did != n.heartbeat_seq) {
                push_did(
                    &mut r,
                    MachineDid {
                        key: e.did,
                        id: e.id.to_owned(),
                        name: e.name.to_owned(),
                        writable: e.writable,
                    },
                );
            }
            i += 1;
        }
        let ghost known = dids_view(r@);
        let mut j: usize = 0;
        assert(known + other_dids(n, runtime_dids@, 0) =~= known);
        while j < runtime_dids.len()
            invariant
                j <= runtime_dids@.len(),
                entries_spec(reg@) == registry(n),
                dids_view(r@) == known + other_dids(n, runtime_dids@, j as nat),
            decreases runtime_dids@.len() - j,
        {
            let key: u16 = runtime_dids[j];
            let ghost before = other_dids(n, runtime_dids@, j as nat);
            if find_did(&reg, key).is_none() {
                let number = upper_hex(key as u32, 4);
                let d = MachineDid {
                    key,
                    id: cat2("runtime_", number.as_str()),
                    name: cat2("Runtime DID 0x", number.as_str()),
                    writable: true,
                };
                let ghost seen = d@;
                push_did(&mut r, d);
                assert((known + before).push(seen) =~= known + before.push(seen));
            }
            j += 1;
        }
        r
    }

    /// A value, from what the non-volatile store has for it.
    pub fn read_did(&self, key: u16, found: Option<Vec<u8>>) -> (r: Result<Vec<u8>, MachineError>)
        ensures
            did_found(key, found, r),
    {
        match found {
            Some(bytes) => Ok(bytes),
            None => {
                let number = upper_hex(key as u32, 4);
                Err(MachineError::NotFound(cat2("DID 0x", number.as_str())))
            },
        }
    }

    /// Whether a value may be written.
    pub fn write_did(&self, kind: DidKind) -> (r: Result<(), MachineError>)
        ensures
            did_write_judged(kind, r),
    {
        match kind {
            DidKind::Factory => Err(
                MachineError::PolicyRejected(
                    "factory DIDs are read-only after provisioning".to_owned(),
                ),
            ),
            DidKind::Runtime => Ok(()),
        }
    }

    /// What writing a value came to: the store may be full, or may fail.
    pub fn did_written(&self, outcome: Result<bool, String>) -> (r: Result<(), MachineError>)
        ensures
            did_stored(outcome, r),
    {
        match outcome {
            Ok(stored) => if stored {
                Ok(())
            } else {
                Err(MachineError::Storage("runtime DID store full".to_owned()))
            },
            Err(why) => Err(MachineError::Storage(why)),
        }
    }

    /// Gives the update up unless the bank pointer has been flipped, and says what
    /// the node has to do.
    pub fn abort_install(&mut self, nv: &NvView) -> (r: Result<NodeResolution, MachineError>)
        requires
            old(self).inner.wf(),
            old(self).inner.setup.bank_set.index() < NUM_BANK_SETS,
        ensures
            final(self).inner.wf(),
            final(self).inner.same_but_book(old(self).inner),
            final(self).capabilities == old(self).capabilities,
            final(self).csr_keystore == old(self).csr_keystore,
            final(self).csr_crypto == old(self).csr_crypto,
            install_given_up(*old(self), *final(self), *nv, r),
    {
        if self.inner.flash_is_finalized() {
            return Err(
                MachineError::PolicyRejected("cannot abort: install already finalized".to_owned()),
            );
        }
        Ok(self.inner.abort_session(nv))
    }

    /// How the component runs is not told here.
    pub fn runtime_state(&self) -> (r: RuntimeState)
        ensures
            r.status is Unknown,
            json_of(r.detail) is Null,
    {
        RuntimeState { status: RuntimeStatus::Unknown, detail: null_value() }
    }

    /// The answer on where keys are asked for.
    pub open spec fn keys_sought(self, what: Seq<char>, r: Result<KeySource, MachineError>) -> bool {
        if self.csr_crypto {
            r == Ok::<KeySource, MachineError>(KeySource::Crypto)
        } else {
            match self.csr_keystore {
                Some(k) => match r {
                    Ok(KeySource::Keystore(p)) => p@ == k@,
                    _ => false,
                },
                None => declined(
                    r,
                    MachineFault::NotSupported(what + " (no keystore configured)"@),
                ),
            }
        }
    }

    /// The answer on where a request for a certificate is made.
    pub open spec fn csr_sought(
        self,
        key_id: Seq<char>,
        slot_known: bool,
        r: Result<KeySource, MachineError>,
    ) -> bool {
        if !slot_known {
            declined(r, MachineFault::Internal("CSR for unknown key slot '"@ + key_id + "'"@))
        } else {
            self.keys_sought("get_csr"@, r)
        }
    }

    /// The answer on where the id of the device is read from.
    pub open spec fn id_sought(self, r: Option<KeySource>) -> bool {
        if self.csr_crypto {
            r == Some(KeySource::Crypto)
        } else {
            match self.csr_keystore {
                Some(k) => match r {
                    Some(KeySource::Keystore(p)) => p@ == k@,
                    _ => false,
                },
                None => r is None,
            }
        }
    }

    /// Where keys are asked for: the cryptographic services come before the key
    /// store. `what` is what they are asked for.
    pub fn key_source(&self, what: &str) -> (r: Result<KeySource, MachineError>)
        ensures
            self.keys_sought(what@, r),
    {
        if self.csr_crypto {
            return Ok(KeySource::Crypto);
        }
        match &self.csr_keystore {
            Some(k) => Ok(KeySource::Keystore(k.clone())),
            None => Err(MachineError::NotSupported(cat2(what, " (no keystore configured)"))),
        }
    }

    /// Where a request for a certificate is made, for a key whose slot is known or
    /// not.
    pub fn get_csr(&self, key_id: &str, slot_known: bool) -> (r: Result<KeySource, MachineError>)
        ensures
            self.csr_sought(key_id@, slot_known, r),
    {
        if !slot_known {
            return Err(
                MachineError::Internal(cat3("CSR for unknown key slot '", key_id, "'")),
            );
        }
        self.key_source("get_csr")
    }

    /// What a request for a certificate came to.
    pub fn csr_made(&self, outcome: Result<Vec<u8>, String>) -> (r: Result<Vec<u8>, MachineError>)
        ensures
            csr_answered(outcome, r),
    {
        match outcome {
            Ok(der) => Ok(der),
            Err(why) => Err(MachineError::Internal(cat2("csr generation failed: ", why.as_str()))),
        }
    }

    /// What is told of the slots of the security module: of every slot, whatever it
    /// holds.
    pub fn list_keys(
        &self,
        state: Option<Result<ProvisioningState, String>>,
        slots: Result<Vec<SlotInfo>, String>,
    ) -> (r: Result<KeyInventory, MachineError>)
        ensures
            keys_told(state, slots, r),
    {
        let mut rest = match slots {
            Ok(s) => s,
            Err(why) => {
                return Err(MachineError::Internal(cat2("list slots failed: ", why.as_str())));
            },
        };
        let provisioned = match state {
            Some(Ok(ProvisioningState::Provisioned)) => true,
            _ => false,
        };
        let ghost all = rest@;
        let mut keys: Vec<KeyDescriptor> = Vec::new();
        while rest.len() > 0
            invariant
                keys@.len() <= all.len(),
                rest@ == all.skip(keys@.len() as int),
                forall|i: int| 0 <= i < keys@.len() ==> tells(#[trigger] keys@[i], all[i]),
            decreases rest@.len(),
        {
            let s = rest.remove(0);
            assert(s == all[keys@.len() as int]);
            assert(rest@ =~= all.skip(keys@.len() as int + 1));
            keys.push(describe_slot(s));
        }
        Ok(KeyInventory { provisioned, keys })
    }

    /// Where the id of the device is read from: where keys are asked for, and
    /// nowhere where there is no such place.
    pub fn get_device_id(&self) -> (r: Option<KeySource>)
        ensures
            self.id_sought(r),
    {
        match self.key_source("get_device_id") {
            Ok(s) => Some(s),
            Err(_) => None,
        }
    }
}

/// The words of a refusal by the machine.
pub open spec fn machine_words(e: MachineFault) -> Seq<char> {
    match e {
        MachineFault::NotSupported(s) => s,
        MachineFault::NotFound(s) => s,
        MachineFault::InvalidArgument(s) => s,
        MachineFault::PolicyRejected(s) => s,
        MachineFault::Busy(s) => s,
        MachineFault::ManifestInvalid(s) => s,
        MachineFault::WrongTarget(s) => s,
        MachineFault::UnknownFlashSession(s) => s,
        MachineFault::Storage(s) => s,
        MachineFault::Internal(s) => s,
    }
}

/// A refusal by the machine is passed on in its own words: as a request that was
/// wrong where the machine refused it by a rule, so that an update that cannot be
/// given up any more is refused alike whichever way it is asked for.
pub proof fn law_machine_refusals_keep_their_words(e: MachineFault)
    ensures
        match machine_as_backend(e) {
            BackendFault::NotSupported(s) => s == machine_words(e),
            BackendFault::EntityNotFound(s) => s == machine_words(e),
            BackendFault::InvalidRequest(s) => s == machine_words(e),
            BackendFault::Busy(s) => s == machine_words(e),
            BackendFault::UnsupportedMediaType(s) => s == machine_words(e),
            BackendFault::Internal(s) => s == machine_words(e),
            _ => false,
        },
        e is PolicyRejected ==> machine_as_backend(e) is InvalidRequest,
        e is Busy <==> machine_as_backend(e) is Busy,
{
}

/// A refusal that goes through the machine interface and back is the same refusal,
/// for the kinds that both interfaces tell apart.
pub proof fn law_refusals_survive_the_way_back(e: BackendFault)
    requires
        e is Busy || e is InvalidRequest || e is EntityNotFound || e is Internal
            || e is UnsupportedMediaType,
    ensures
        machine_as_backend(backend_as_machine(e)) == e,
{
}

/// Whatever the engine refuses keeps its meaning: what is not found stays not found,
/// what is busy stays busy, a wrong request stays a wrong argument and a wrong type of
/// payload the wrong target; and nothing else becomes one of these.
pub proof fn law_refusals_keep_their_meaning(e: BackendFault)
    ensures
        backend_as_machine(e) is NotFound <==> e is EntityNotFound || e is ParameterNotFound || e
            is OperationNotFound || e is OutputNotFound,
        backend_as_machine(e) is Busy <==> e is Busy || e is UpdateInProgress,
        backend_as_machine(e) is InvalidArgument <==> e is InvalidRequest,
        backend_as_machine(e) is WrongTarget <==> e is UnsupportedMediaType,
        backend_as_machine(e) is NotSupported <==> e is NotSupported,
        backend_as_machine(e) is PolicyRejected <==> e is SecurityRequired || e is SessionRequired,
        backend_as_machine(e) is Internal <==> e is Timeout || e is Protocol || e is Transport || e
            is Internal || e is RateLimited || e is EcuError,
        e matches BackendFault::EntityNotFound(s) ==> machine_words(backend_as_machine(e)) == s,
        e matches BackendFault::ParameterNotFound(s) ==> machine_words(backend_as_machine(e)) == s,
        e matches BackendFault::OperationNotFound(s) ==> machine_words(backend_as_machine(e)) == s,
        e matches BackendFault::OutputNotFound(s) ==> machine_words(backend_as_machine(e)) == s,
        e matches BackendFault::InvalidRequest(s) ==> machine_words(backend_as_machine(e)) == s,
        e matches BackendFault::Busy(s) ==> machine_words(backend_as_machine(e)) == s,
        e matches BackendFault::UpdateInProgress(s) ==> machine_words(backend_as_machine(e)) == s,
        e matches BackendFault::UnsupportedMediaType(s) ==> machine_words(backend_as_machine(e))
            == s,
        e matches BackendFault::Internal(s) ==> machine_words(backend_as_machine(e)) == s,
{
}

/// A component can do what its configuration and fittings let it do: it has two banks and
/// a trial boot unless it has a single bank, rolls back where that is configured, tells
/// how it runs where a service runs it, and deals with keys where a security module is
/// attached. No update can be given up once it is finalised.
pub proof fn law_capabilities_follow_the_fittings(b: ComponentBackend, declared: ResetKind)
    ensures
        machine_capabilities(b, declared).flash matches Some(flash) && flash.dual_bank
            == !b.setup.config.single_bank && flash.supports_trial_boot
            == !b.setup.config.single_bank && flash.supports_rollback
            == b.setup.config.supports_rollback && !flash.abortable_after_finalize
            && flash.reset_kind == b.reset_needed(declared),
        machine_capabilities(b, declared).lifecycle matches Some(life) && life.has_runtime_state
            == (b.setup.vm_service_addr is Some) && life.restartable,
        machine_capabilities(b, declared).hsm is Some <==> b.setup.fittings.hsm,
        machine_capabilities(b, declared).hsm matches Some(h) ==> h.supports_csr
            && h.supports_key_install,
        machine_capabilities(b, declared).did_store,
        machine_capabilities(b, declared).dtcs,
        machine_capabilities(b, declared).clear_dtcs,
{
}

/// A place to ask for certificates adds requests for them and nothing else.
pub proof fn law_a_key_store_adds_requests_only(c: MachineCapabilities)
    ensures
        with_csr(c).hsm matches Some(h) && h.supports_csr && (h.supports_key_install <==> (
        c.hsm matches Some(before) && before.supports_key_install)),
        with_csr(c).flash == c.flash,
        with_csr(c).lifecycle == c.lifecycle,
        with_csr(c).did_store == c.did_store,
        with_csr(c).dtcs == c.dtcs,
        with_csr(c).clear_dtcs == c.clear_dtcs,
{
}

/// What is told of a slot: its id, its certificate and its uses as they are; bytes only
/// of a key with a public half, and then those of that half; and a counter is never
/// told as a key, nor a key as a counter.
pub proof fn law_only_public_halves_are_told(d: KeyDescriptor, s: SlotInfo)
    requires
        tells(d, s),
    ensures
        d.public_key is Some ==> s.kind == HeldKind::Key(KeyType::EcP256) || s.kind
            == HeldKind::Key(KeyType::Ed25519),
        d.public_key matches Some(shown) ==> (s.public_key matches Some(held) && shown@ == held@),
        (s.kind == HeldKind::Key(KeyType::EcP256) || s.kind == HeldKind::Key(KeyType::Ed25519))
            && s.public_key is Some ==> d.public_key is Some,
        d.key_id@ == s.key_id@,
        d.has_certificate == s.has_certificate,
        d.allowed_ops@ == s.allowed_ops@,
        d.kind is Monotonic <==> s.kind is Monotonic,
        s.kind == HeldKind::Key(KeyType::EcP256) ==> d.kind->Key_0@ == "EC-P256"@,
        s.kind == HeldKind::Key(KeyType::Aes256) ==> d.kind->Key_0@ == "AES-256"@,
        s.kind == HeldKind::Key(KeyType::Aes128) ==> d.kind->Key_0@ == "AES-128"@,
        s.kind == HeldKind::Key(KeyType::Ed25519) ==> d.kind->Key_0@ == "Ed25519"@,
        s.kind == HeldKind::Key(KeyType::HmacSha256) ==> d.kind->Key_0@ == "HMAC-SHA256"@,
{
}

/// Every slot is told of, in order, where the slots could be listed at all; and the
/// module counts as set up exactly when it says so.
pub proof fn law_every_slot_is_told(
    state: Option<Result<ProvisioningState, String>>,
    slots: Result<Vec<SlotInfo>, String>,
    r: Result<KeyInventory, MachineError>,
)
    requires
        keys_told(state, slots, r),
    ensures
        r is Ok <==> slots is Ok,
        r matches Ok(inv) ==> inv.keys@.len() == slots->Ok_0@.len() && forall|i: int|
            0 <= i < inv.keys@.len() ==> (#[trigger] inv.keys@[i]).key_id@
                == slots->Ok_0@[i].key_id@,
        r matches Ok(inv) ==> (inv.provisioned <==> (state matches Some(Ok(p)) && p
            is Provisioned)),
        r matches Err(e) ==> e@ is Internal,
{
    if let Ok(inv) = r {
        assert forall|i: int| 0 <= i < inv.keys@.len() implies (#[trigger] inv.keys@[i]).key_id@
            == slots->Ok_0@[i].key_id@ by {
            assert(tells(inv.keys@[i], slots->Ok_0@[i]));
        }
    }
}

/// Keys are asked of the cryptographic services where they are attached, else of the key
/// store where there is one, and else not at all; and the id of the device is read where
/// keys are asked for.
pub proof fn law_keys_are_asked_of_the_services_first(
    a: ComponentAdapter,
    what: Seq<char>,
    r: Result<KeySource, MachineError>,
    id: Option<KeySource>,
)
    requires
        a.keys_sought(what, r),
        a.id_sought(id),
    ensures
        (r matches Ok(k) && k is Crypto) <==> a.csr_crypto,
        (r matches Ok(k) && k is Keystore) <==> !a.csr_crypto && a.csr_keystore is Some,
        r is Err <==> !a.csr_crypto && a.csr_keystore is None,
        r matches Err(e) ==> e@ is NotSupported,
        r matches Ok(KeySource::Keystore(p)) ==> p@ == a.csr_keystore->0@,
        id is Some <==> r is Ok,
        id matches Some(KeySource::Keystore(p)) ==> (r matches Ok(KeySource::Keystore(q)) && p@
            == q@),
        (id matches Some(k) && k is Crypto) ==> (r matches Ok(k) && k is Crypto),
{
}

/// Values that were written in the factory are not written again; others are, unless the
/// store is full or fails, and are read as they are held.
pub proof fn law_run_time_values_can_be_written(
    kind: DidKind,
    judged: Result<(), MachineError>,
    outcome: Result<bool, String>,
    stored: Result<(), MachineError>,
    key: u16,
    held: Option<Vec<u8>>,
    read: Result<Vec<u8>, MachineError>,
)
    requires
        did_write_judged(kind, judged),
        did_stored(outcome, stored),
        did_found(key, held, read),
    ensures
        judged is Ok <==> kind is Runtime,
        judged matches Err(e) ==> e@ is PolicyRejected,
        stored is Ok <==> outcome == Ok::<bool, String>(true),
        stored matches Err(e) ==> e@ is Storage,
        read is Ok <==> held is Some,
        read matches Ok(bytes) ==> bytes@ == held->0@,
        read matches Err(e) ==> e@ is NotFound,
{
}

/// An update is given up exactly when it is not finalised; its traces are then gone, and
/// one that is finalised is left as it is.
pub proof fn law_an_install_is_given_up_until_it_is_final(
    before: ComponentAdapter,
    after: ComponentAdapter,
    nv: NvView,
    r: Result<NodeResolution, MachineError>,
)
    requires
        install_given_up(before, after, nv, r),
    ensures
        r is Ok <==> !before.inner.finalized(),
        r is Ok ==> after.inner.book@ == before.inner.book@.cleared(),
        r matches Err(e) ==> after == before && e@ is PolicyRejected,
{
}

proof fn lemma_known_dids(n: DidNumbers, guest: bool, k: nat, i: int)
    requires
        k <= registry(n).len(),
        0 <= i < k,
        guest || !health_did(n, registry(n)[i].did),
    ensures
        exists|j: int|
            0 <= j < known_dids(n, guest, k).len() && (#[trigger] known_dids(n, guest, k)[j]).key
                == registry(n)[i].did && known_dids(n, guest, k)[j].id == registry(n)[i].id
                && known_dids(n, guest, k)[j].name == registry(n)[i].name && known_dids(
                n,
                guest,
                k,
            )[j].writable == registry(n)[i].writable,
    decreases k,
{
    let all = known_dids(n, guest, k);
    let before = known_dids(n, guest, (k - 1) as nat);
    if i < k - 1 {
        lemma_known_dids(n, guest, (k - 1) as nat, i);
        let j = choose|j: int|
            0 <= j < before.len() && (#[trigger] before[j]).key == registry(n)[i].did
                && before[j].id == registry(n)[i].id && before[j].name == registry(n)[i].name
                && before[j].writable == registry(n)[i].writable;
        assert(all[j] == before[j]);
    } else {
        assert(all[all.len() - 1].key == registry(n)[i].did);
    }
}

proof fn lemma_known_are_registered(n: DidNumbers, guest: bool, k: nat, j: int)
    requires
        k <= registry(n).len(),
        0 <= j < known_dids(n, guest, k).len(),
    ensures
        guest || !health_did(n, known_dids(n, guest, k)[j].key),
        exists|i: int|
            0 <= i < k && (#[trigger] registry(n)[i]).did == known_dids(n, guest, k)[j].key,
    decreases k,
{
    let before = known_dids(n, guest, (k - 1) as nat);
    if j < before.len() {
        lemma_known_are_registered(n, guest, (k - 1) as nat, j);
        assert(known_dids(n, guest, k)[j] == before[j]);
    } else {
        assert(registry(n)[k - 1].did == known_dids(n, guest, k)[j].key);
    }
}

proof fn lemma_other_dids(n: DidNumbers, dids: Seq<u16>, k: nat, j: int)
    requires
        k <= dids.len(),
        0 <= j < other_dids(n, dids, k).len(),
    ensures
        ({
            let d = other_dids(n, dids, k)[j];
            &&& dids.contains(d.key)
            &&& entry_by_did(registry(n), d.key, 0) is None
            &&& d.writable
            &&& d.id == "runtime_"@ + did_text(d.key)
        }),
    decreases k,
{
    let before = other_dids(n, dids, (k - 1) as nat);
    if j < before.len() {
        lemma_other_dids(n, dids, (k - 1) as nat, j);
        assert(other_dids(n, dids, k)[j] == before[j]);
    } else {
        assert(dids.contains(dids[k - 1]));
    }
}

proof fn lemma_other_dids_all(n: DidNumbers, dids: Seq<u16>, k: nat, i: int)
    requires
        k <= dids.len(),
        0 <= i < k,
        entry_by_did(registry(n), dids[i], 0) is None,
    ensures
        exists|j: int|
            0 <= j < other_dids(n, dids, k).len() && (#[trigger] other_dids(n, dids, k)[j]).key
                == dids[i],
    decreases k,
{
    let all = other_dids(n, dids, k);
    let before = other_dids(n, dids, (k - 1) as nat);
    if i < k - 1 {
        lemma_other_dids_all(n, dids, (k - 1) as nat, i);
        let j = choose|j: int| 0 <= j < before.len() && (#[trigger] before[j]).key == dids[i];
        assert(all[j] == before[j]);
    } else {
        assert(all[all.len() - 1].key == dids[i]);
    }
}

/// A component lists every value of the registry under its number, but for the health of
/// a guest where it has none; and a value that was written at run time exactly when the
/// registry has none of its number, as one that can be written.
pub proof fn law_every_value_is_listed(n: DidNumbers, guest: bool, dids: Seq<u16>, i: int, j: int)
    requires
        0 <= i < registry(n).len(),
        0 <= j < dids.len(),
    ensures
        ({
            let known = known_dids(n, guest, registry(n).len());
            let others = other_dids(n, dids, dids.len());
            &&& (exists|x: int| 0 <= x < known.len() && (#[trigger] known[x]).key == registry(n)[i].did)
                <==> guest || (registry(n)[i].did != n.guest_state && registry(n)[i].did
                != n.heartbeat_seq)
            &&& (exists|x: int| 0 <= x < others.len() && (#[trigger] others[x]).key == dids[j])
                <==> forall|y: int|
                0 <= y < registry(n).len() ==> (#[trigger] registry(n)[y]).did != dids[j]
            &&& forall|x: int| 0 <= x < others.len() ==> (#[trigger] others[x]).writable
        }),
{
    let known = known_dids(n, guest, registry(n).len());
    let others = other_dids(n, dids, dids.len());
    if guest || !health_did(n, registry(n)[i].did) {
        lemma_known_dids(n, guest, registry(n).len(), i);
    }
    if exists|x: int| 0 <= x < known.len() && (#[trigger] known[x]).key == registry(n)[i].did {
        let x = choose|x: int| 0 <= x < known.len() && (#[trigger] known[x]).key == registry(n)[i].did;
        lemma_known_are_registered(n, guest, registry(n).len(), x);
    }
    lemma_by_did(registry(n), dids[j], 0);
    if entry_by_did(registry(n), dids[j], 0) is None {
        lemma_other_dids_all(n, dids, dids.len(), j);
    }
    if exists|x: int| 0 <= x < others.len() && (#[trigger] others[x]).key == dids[j] {
        let x = choose|x: int| 0 <= x < others.len() && (#[trigger] others[x]).key == dids[j];
        lemma_other_dids(n, dids, dids.len(), x);
    }
    assert forall|x: int| 0 <= x < others.len() implies (#[trigger] others[x]).writable by {
        lemma_other_dids(n, dids, dids.len(), x);
    }
}

/// A certificate is requested only for a key whose slot is known, where keys are asked
/// for; and what was made is handed out as it is.
pub proof fn law_certificates_are_requested_for_known_slots(
    a: ComponentAdapter,
    key_id: Seq<char>,
    slot_known: bool,
    sought: Result<KeySource, MachineError>,
    outcome: Result<Vec<u8>, String>,
    made: Result<Vec<u8>, MachineError>,
)
    requires
        a.csr_sought(key_id, slot_known, sought),
        csr_answered(outcome, made),
    ensures
        sought is Ok <==> slot_known && (a.csr_crypto || a.csr_keystore is Some),
        !slot_known ==> (sought matches Err(e) && e@ is Internal),
        slot_known && a.csr_crypto ==> (sought matches Ok(k) && k is Crypto),
        made is Ok <==> outcome is Ok,
        made matches Ok(der) ==> der == outcome->Ok_0,
        made matches Err(e) ==> e@ is Internal,
{
}

/// A value that was written at run time goes by its number, in its id and in its name.
pub proof fn law_run_time_values_go_by_their_number(n: DidNumbers, dids: Seq<u16>, k: nat, j: int)
    requires
        k <= dids.len(),
        0 <= j < other_dids(n, dids, k).len(),
    ensures
        ({
            let d = other_dids(n, dids, k)[j];
            &&& d.id == "runtime_"@ + upper_hex_text(d.key as nat, 4)
            &&& d.name == "Runtime DID 0x"@ + upper_hex_text(d.key as nat, 4)
            &&& d.writable
            &&& dids.contains(d.key)
        }),
    decreases k,
{
    let before = other_dids(n, dids, (k - 1) as nat);
    if j < before.len() {
        law_run_time_values_go_by_their_number(n, dids, (k - 1) as nat, j);
        assert(other_dids(n, dids, k)[j] == before[j]);
    } else {
        assert(dids.contains(dids[k - 1]));
    }
}

} // verus!
