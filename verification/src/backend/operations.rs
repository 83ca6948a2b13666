//! Faults, operations and the status of a component.

use crate::backend::guest::GuestHealth;
use crate::backend::setup::ComponentBackend;
use crate::banks::{BankSet, NvView};
use crate::error::{refused, BackendError, BackendFault};
use crate::json::{
    bool_value, json_of, members_of, new_object, no_members, object_value, put, text_value,
    unsigned_value, Json,
};
use crate::logs::entry::text_option;
use crate::manifest_provider::{ManifestError, ValidatedFirmware};
use crate::text::{
    cat2, cat3, cat4, cat5, decimal, decimal_text, same_text, upper_hex, upper_hex_text,
};
use serde_json::{Map as JsonMap, Value};
use vstd::prelude::*;

verus! {

/// The operation that raises the floor of the clock.
pub const ATTEST_TIME_OP_ID: &'static str = "x-sumo-attest-time";

/// The operation that disables and enables a component.
pub const ADMIN_STATE_OP_ID: &'static str = "x-sumo-admin-state";

// ---------------------------------------------------------------------------
// Faults
// ---------------------------------------------------------------------------

/// A trouble code, as the non-volatile store keeps it.
#[derive(Debug, Clone, Copy, PartialEq, Eq, Structural)]
pub struct DtcEntry {
    pub dtc_number: u32,
    pub status: u8,
}

/// How bad a fault is.
#[derive(Debug, Clone, Copy, PartialEq, Eq, Structural)]
pub enum FaultSeverity {
    Error,
    Warning,
}

/// A fault.
#[derive(Debug, Clone)]
pub struct Fault {
    pub id: String,
    pub code: String,
    pub severity: FaultSeverity,
    pub message: String,
    pub active: bool,
    pub status: u8,
    pub href: String,
}

/// The code of a trouble code: at least six digits.
pub open spec fn fault_code(number: u32) -> Seq<char> {
    upper_hex_text(number as nat, 6)
}

/// The lowest bit of a status: the fault is there now.
pub open spec fn fault_active(status: u8) -> bool {
    status % 2 == 1
}

/// A fault says what its trouble code says.
pub open spec fn fault_of(f: Fault, d: DtcEntry, component: Seq<char>) -> bool {
    &&& f.id@ == "dtc_"@ + fault_code(d.dtc_number)
    &&& f.code@ == fault_code(d.dtc_number)
    &&& f.severity == (if fault_active(d.status) {
        FaultSeverity::Error
    } else {
        FaultSeverity::Warning
    })
    &&& f.message@ == "DTC "@ + fault_code(d.dtc_number)
    &&& f.active == fault_active(d.status)
    &&& f.status == d.status
    &&& f.href@ == "/vehicle/v1/components/"@ + component + "/faults/dtc_"@ + fault_code(
        d.dtc_number,
    )
}

/// What clearing the faults came to.
#[derive(Debug, Clone)]
pub struct ClearFaultsResult {
    pub success: bool,
    pub cleared_count: u32,
    pub message: String,
}

// ---------------------------------------------------------------------------
// Operations
// ---------------------------------------------------------------------------

/// An operation that can be carried out.
#[derive(Debug, Clone)]
pub struct OperationInfo {
    pub id: String,
    pub name: String,
    pub description: Option<String>,
    pub requires_security: bool,
    pub security_level: u8,
    pub href: String,
}

/// An operation that can be carried out.
pub struct OperationView {
    pub id: Seq<char>,
    pub name: Seq<char>,
    pub description: Option<Seq<char>>,
    pub requires_security: bool,
    pub security_level: u8,
    pub href: Seq<char>,
}

impl View for OperationInfo {
    type V = OperationView;

    open spec fn view(&self) -> OperationView {
        OperationView {
            id: self.id@,
            name: self.name@,
            description: text_option(self.description),
            requires_security: self.requires_security,
            security_level: self.security_level,
            href: self.href@,
        }
    }
}

/// What a list of operations says.
pub open spec fn operations_view(ops: Seq<OperationInfo>) -> Seq<OperationView> {
    ops.map_values(|o: OperationInfo| o@)
}

/// Where an operation is carried out.
pub open spec fn operation_href(component: Seq<char>, op: Seq<char>) -> Seq<char> {
    "/vehicle/v1/components/"@ + component + "/operations/"@ + op + "/executions"@
}

/// Disabling and enabling as an operation.
pub open spec fn admin_operation(component: Seq<char>) -> OperationView {
    OperationView {
        id: ADMIN_STATE_OP_ID@,
        name: "Administrative state (disable/enable)"@,
        description: None,
        requires_security: false,
        security_level: 0,
        href: operation_href(component, ADMIN_STATE_OP_ID@),
    }
}

/// Raising the floor of the clock as an operation.
pub open spec fn attest_operation(component: Seq<char>) -> OperationView {
    OperationView {
        id: ATTEST_TIME_OP_ID@,
        name: "Attest trusted time (advance the safe-time floor)"@,
        description: Some(
            "POST a SoftwareAuthority-signed SUIT manifest (hex); the device ratchets its safe-time floor from the manifest's signed signing_time."@,
        ),
        requires_security: false,
        security_level: 0,
        href: operation_href(component, ATTEST_TIME_OP_ID@),
    }
}

/// The operations of a component: a component that can be disabled has that one,
/// and the host with a security module can be told the time.
pub open spec fn all_operations(b: ComponentBackend) -> Seq<OperationView> {
    let admin = if b.setup.fittings.deactivator {
        seq![admin_operation(b.setup.id())]
    } else {
        Seq::empty()
    };
    if b.setup.fittings.hsm && b.setup.bank_set is Os {
        admin.push(attest_operation(b.setup.id()))
    } else {
        admin
    }
}

/// The document on the time that was attested.
pub open spec fn attested(iat: u64, floor: u64) -> Json {
    Json::Object(
        no_members().insert("signing_time_secs"@, Json::Unsigned(iat)).insert(
            "floor_secs"@,
            Json::Unsigned(floor),
        ),
    )
}

/// The answer to attesting a time, with a floor that may not be known.
pub open spec fn attested_with(iat: u64, floor: Option<u64>) -> Json {
    attested(
        iat,
        match floor {
            Some(f) => f,
            None => iat,
        },
    )
}

// ---------------------------------------------------------------------------
// Status
// ---------------------------------------------------------------------------

/// Whether a component is ready.
#[derive(Debug, Clone, Copy, PartialEq, Eq, Structural)]
pub enum EntityStatus {
    Ready,
    NotReady,
}

/// The status of a component.
#[derive(Debug)]
pub struct EntityStatusBody {
    pub status: EntityStatus,
    /// What else there is to say, under `x-sumo-runtime`.
    pub extensions: JsonMap<String, Value>,
}

/// The first members of the document on a running component.
pub open spec fn counted(boot_count: u64) -> Map<Seq<char>, Json> {
    no_members().insert("boot_count"@, Json::Unsigned(boot_count))
}

/// The members with what the health says.
pub open spec fn with_health(m: Map<Seq<char>, Json>, h: Option<GuestHealth>) -> Map<
    Seq<char>,
    Json,
> {
    match h {
        Some(h) => m.insert("hb_seq"@, Json::Unsigned(h.hb_seq as u64)).insert(
            "boot_id"@,
            Json::Unsigned(h.boot_id as u64),
        ),
        None => m,
    }
}

/// The members with the administrative state, where the component has one.
pub open spec fn with_admin(m: Map<Seq<char>, Json>, disableable: bool, disabled: bool) -> Map<
    Seq<char>,
    Json,
> {
    if disableable {
        m.insert(
            "admin_state"@,
            Json::Text(
                if disabled {
                    "disabled"@
                } else {
                    "enabled"@
                },
            ),
        )
    } else {
        m
    }
}

/// The members with those of the extensions before `k` that are not taken yet.
pub open spec fn with_extensions(
    m: Map<Seq<char>, Json>,
    more: Seq<(String, Value)>,
    k: nat,
) -> Map<Seq<char>, Json>
    decreases k,
{
    if k == 0 {
        m
    } else {
        let before = with_extensions(m, more, (k - 1) as nat);
        if before.contains_key(more[k - 1].0@) {
            before
        } else {
            before.insert(more[k - 1].0@, json_of(more[k - 1].1))
        }
    }
}

/// What the probe of a component gave: how it is, and what else there is to say.
#[derive(Debug)]
pub struct ProbeReading {
    pub health: Option<GuestHealth>,
    pub extensions: Vec<(String, Value)>,
}

/// What the probe of a component gave, as far as it says how the component is.
pub open spec fn probe_health(p: Option<ProbeReading>) -> Option<GuestHealth> {
    match p {
        Some(p) => p.health,
        None => None,
    }
}

fn has_key(keys: &Vec<String>, key: &str) -> (r: bool)
    ensures
        r == exists|i: int| 0 <= i < keys@.len() && (#[trigger] keys@[i])@ == key@,
{
    let mut i: usize = 0;
    while i < keys.len()
        invariant
            i <= keys@.len(),
            forall|j: int| 0 <= j < i ==> (#[trigger] keys@[j])@ != key@,
        decreases keys@.len() - i,
    {
        if same_text(keys[i].as_str(), key) {
            return true;
        }
        i += 1;
    }
    false
}

/// An object that keeps the keys it was given.
struct Members {
    object: JsonMap<String, Value>,
    keys: Vec<String>,
}

impl Members {
    spec fn wf(self) -> bool {
        forall|k: Seq<char>|
            members_of(self.object).contains_key(k) <==> exists|i: int|
                0 <= i < self.keys@.len() && (#[trigger] self.keys@[i])@ == k
    }

    fn new() -> (m: Members)
        ensures
            m.wf(),
            members_of(m.object) == no_members(),
    {
        Members { object: new_object(), keys: Vec::new() }
    }

    fn set(&mut self, key: &str, v: Value)
        requires
            old(self).wf(),
        ensures
            final(self).wf(),
            members_of(final(self).object) == members_of(old(self).object).insert(
                key@,
                json_of(v),
            ),
    {
        let ghost before = self.keys@;
        put(&mut self.object, key, v);
        self.keys.push(key.to_owned());
        proof {
            assert(self.keys@[before.len() as int]@ == key@);
            assert forall|k: Seq<char>|
                members_of(self.object).contains_key(k) <==> exists|i: int|
                    0 <= i < self.keys@.len() && (#[trigger] self.keys@[i])@ == k by {
                if members_of(self.object).contains_key(k) && k != key@ {
                    let i = choose|i: int| 0 <= i < before.len() && (#[trigger] before[i])@ == k;
                    assert(self.keys@[i]@ == k);
                }
                if exists|i: int| 0 <= i < self.keys@.len() && (#[trigger] self.keys@[i])@ == k {
                    let i = choose|i: int|
                        0 <= i < self.keys@.len() && (#[trigger] self.keys@[i])@ == k;
                    if i < before.len() {
                        assert(before[i]@ == k);
                    }
                }
            }
        }
    }
}

/// The faults that trouble codes stand for.
pub open spec fn faults_given(component: Seq<char>, dtcs: Seq<DtcEntry>, r: Seq<Fault>) -> bool {
    &&& r.len() == dtcs.len()
    &&& forall|i: int| 0 <= i < r.len() ==> fault_of(#[trigger] r[i], dtcs[i], component)
}

/// What clearing the faults came to.
pub open spec fn faults_cleared(
    dtc_count: u32,
    written: Result<(), String>,
    r: Result<ClearFaultsResult, BackendError>,
) -> bool {
    match written {
        Err(why) => refused(r, BackendFault::Internal(why@)),
        Ok(_) => match r {
            Ok(c) => c.success && c.cleared_count == dtc_count && c.message@ == "Cleared "@
                + decimal_text(dtc_count as nat) + " faults"@,
            Err(_) => false,
        },
    }
}

/// What beginning an operation came to.
pub open spec fn operation_begun(
    operation_id: Seq<char>,
    validated: Result<ValidatedFirmware, ManifestError>,
    r: Result<u64, BackendError>,
) -> bool {
    if operation_id != ATTEST_TIME_OP_ID@ {
        refused(r, BackendFault::OperationNotFound(operation_id))
    } else {
        match validated {
            Err(no) => refused(
                r,
                BackendFault::InvalidRequest("attest-time manifest: "@ + no.message()),
            ),
            Ok(v) => match v.signing_time_secs {
                Some(iat) => r == Ok::<u64, BackendError>(iat),
                None => refused(
                    r,
                    BackendFault::InvalidRequest(
                        "attest-time manifest has no signed signing_time to attest"@,
                    ),
                ),
            },
        }
    }
}

/// What reading the status of a component gave.
pub open spec fn status_read(
    b: ComponentBackend,
    nv: NvView,
    guest: Option<GuestHealth>,
    probe: Option<ProbeReading>,
    r: EntityStatusBody,
) -> bool {
    &&& r.status == b.readiness(nv, guest, probe)
    &&& members_of(r.extensions) == no_members().insert(
        "x-sumo-runtime"@,
        Json::Object(b.runtime_members(nv, guest, probe)),
    )
}

impl ComponentBackend {
    /// The faults of the component, one for each trouble code of the running bank.
    pub fn get_faults(&self, dtcs: &Vec<DtcEntry>) -> (r: Vec<Fault>)
        ensures
            faults_given(self.setup.id(), dtcs@, r@),
    {
        let mut r: Vec<Fault> = Vec::new();
        let mut i: usize = 0;
        while i < dtcs.len()
            invariant
                i <= dtcs@.len(),
                r@.len() == i,
                forall|j: int|
                    0 <= j < i ==> fault_of(#[trigger] r@[j], dtcs@[j], self.setup.id()),
            decreases dtcs@.len() - i,
        {
            let d = dtcs[i];
            let code = upper_hex(d.dtc_number, 6);
            let active = d.status % 2 == 1;
            let severity = if active {
                FaultSeverity::Error
            } else {
                FaultSeverity::Warning
            };
            let f = Fault {
                id: cat2("dtc_", code.as_str()),
                severity,
                message: cat2("DTC ", code.as_str()),
                active,
                status: d.status,
                href: cat4(
                    "/vehicle/v1/components/",
                    self.setup.entity_info.id.as_str(),
                    "/faults/dtc_",
                    code.as_str(),
                ),
                code,
            };
            r.push(f);
            i += 1;
        }
        r
    }

    /// What clearing the faults comes to, from how many there were and from what
    /// came of writing that there are none.
    pub fn clear_faults(&self, dtc_count: u32, written: Result<(), String>) -> (r: Result<
        ClearFaultsResult,
        BackendError,
    >)
        ensures
            faults_cleared(dtc_count, written, r),
    {
        match written {
            Err(why) => Err(BackendError::Internal(why)),
            Ok(_) => {
                let count = decimal(dtc_count as u64);
                Ok(
                    ClearFaultsResult {
                        success: true,
                        cleared_count: dtc_count,
                        message: cat3("Cleared ", count.as_str(), " faults"),
                    },
                )
            },
        }
    }

    /// The operations of the component.
    pub fn list_operations(&self) -> (r: Vec<OperationInfo>)
        ensures
            operations_view(r@) == all_operations(*self),
    {
        let mut r: Vec<OperationInfo> = Vec::new();
        let id = self.setup.entity_info.id.as_str();
        if self.is_disableable() {
            r.push(
                OperationInfo {
                    id: ADMIN_STATE_OP_ID.to_owned(),
                    name: "Administrative state (disable/enable)".to_owned(),
                    description: None,
                    requires_security: false,
                    security_level: 0,
                    href: cat5(
                        "/vehicle/v1/components/",
                        id,
                        "/operations/",
                        ADMIN_STATE_OP_ID,
                        "/executions",
                    ),
                },
            );
        }
        let ghost admin = r@;
        let is_host = match self.setup.bank_set {
            BankSet::Os => true,
            _ => false,
        };
        if self.setup.fittings.hsm && is_host {
            r.push(
                OperationInfo {
                    id: ATTEST_TIME_OP_ID.to_owned(),
                    name: "Attest trusted time (advance the safe-time floor)".to_owned(),
                    description: Some(
                        "POST a SoftwareAuthority-signed SUIT manifest (hex); the device ratchets its safe-time floor from the manifest's signed signing_time.".to_owned(),
                    ),
                    requires_security: false,
                    security_level: 0,
                    href: cat5(
                        "/vehicle/v1/components/",
                        id,
                        "/operations/",
                        ATTEST_TIME_OP_ID,
                        "/executions",
                    ),
                },
            );
        }
        assert(operations_view(r@) =~= all_operations(*self));
        r
    }

    /// Begins an operation. Only attesting the time is carried out here: what the
    /// manifest says is its time is to be put to the floor of the clock.
    pub fn start_operation(
        &self,
        operation_id: &str,
        validated: Result<ValidatedFirmware, ManifestError>,
    ) -> (r: Result<u64, BackendError>)
        ensures
            operation_begun(operation_id@, validated, r),
    {
        if !same_text(operation_id, ATTEST_TIME_OP_ID) {
            return Err(BackendError::OperationNotFound(operation_id.to_owned()));
        }
        match validated {
            Err(no) => {
                let why = no.to_text();
                Err(BackendError::InvalidRequest(cat2("attest-time manifest: ", why.as_str())))
            },
            Ok(v) => match v.signing_time_secs {
                Some(iat) => Ok(iat),
                None => Err(
                    BackendError::InvalidRequest(
                        "attest-time manifest has no signed signing_time to attest".to_owned(),
                    ),
                ),
            },
        }
    }

    /// The answer to attesting a time, with the floor of the clock as it is
    /// afterwards; where that cannot be read, the time stands for it.
    pub fn time_attested(&self, iat: u64, floor: Option<u64>) -> (r: Value)
        ensures
            json_of(r) == attested_with(iat, floor),
    {
        let floor_secs: u64 = match floor {
            Some(f) => f,
            None => iat,
        };
        let mut m = new_object();
        put(&mut m, "signing_time_secs", unsigned_value(iat));
        put(&mut m, "floor_secs", unsigned_value(floor_secs));
        object_value(m)
    }

    /// The health that counts: none for a disabled component, else what the
    /// service for virtual machines says where there is one, else what the probe
    /// says.
    pub open spec fn health_that_counts(
        self,
        nv: NvView,
        guest: Option<GuestHealth>,
        probe: Option<ProbeReading>,
    ) -> Option<GuestHealth> {
        if self.disabled(nv) {
            None
        } else if self.setup.vm_service_addr is Some {
            guest
        } else {
            probe_health(probe)
        }
    }

    /// Whether the component is ready: a disabled one is not, one that nothing
    /// tells the health of is, and any other is if its guest runs.
    pub open spec fn readiness(
        self,
        nv: NvView,
        guest: Option<GuestHealth>,
        probe: Option<ProbeReading>,
    ) -> EntityStatus {
        if self.disabled(nv) {
            EntityStatus::NotReady
        } else if self.setup.vm_service_addr is None && !self.setup.fittings.health_probe {
            EntityStatus::Ready
        } else {
            match self.health_that_counts(nv, guest, probe) {
                Some(h) => if h.status@ == "running"@ && h.guest_state == 1 {
                    EntityStatus::Ready
                } else {
                    EntityStatus::NotReady
                },
                None => EntityStatus::NotReady,
            }
        }
    }

    /// The document on the component as it runs. What the probe adds never
    /// displaces what was there; a disabled component whose probe still answers
    /// waits for the node to restart.
    pub open spec fn runtime_members(
        self,
        nv: NvView,
        guest: Option<GuestHealth>,
        probe: Option<ProbeReading>,
    ) -> Map<Seq<char>, Json> {
        let boot_count = match nv.boot {
            Some(b) => b.boot_count as u64,
            None => 0,
        };
        let base = with_admin(
            with_health(counted(boot_count), self.health_that_counts(nv, guest, probe)),
            self.setup.fittings.deactivator,
            self.disabled(nv),
        );
        if !self.setup.fittings.health_probe {
            base
        } else {
            match probe {
                None => base,
                Some(p) => if self.disabled(nv) {
                    if p.health is Some {
                        base.insert("reboot_pending"@, Json::Bool(true))
                    } else {
                        base
                    }
                } else {
                    with_extensions(base, p.extensions@, p.extensions@.len())
                },
            }
        }
    }

    /// The status of the component. `guest` is what the service for virtual
    /// machines says of the guest, `probe` what the probe gave.
    pub fn read_entity_status(
        &self,
        nv: &NvView,
        guest: Option<GuestHealth>,
        probe: Option<ProbeReading>,
    ) -> (r: EntityStatusBody)
        ensures
            status_read(*self, *nv, guest, probe, r),
    {
        let disabled = self.admin_disabled(nv);
        let ghost whole = probe;
        let has_guest = self.setup.vm_service_addr.is_some();
        let health: Option<&GuestHealth> = if disabled {
            None
        } else if has_guest {
            match &guest {
                Some(h) => Some(h),
                None => None,
            }
        } else {
            match &probe {
                Some(p) => match &p.health {
                    Some(h) => Some(h),
                    None => None,
                },
                None => None,
            }
        };
        assert(crate::backend::data::health_of(health) == self.health_that_counts(
            *nv,
            guest,
            probe,
        ));
        let status = if disabled {
            EntityStatus::NotReady
        } else if !has_guest && !self.setup.fittings.health_probe {
            EntityStatus::Ready
        } else {
            match health {
                Some(h) => if same_text(h.status.as_str(), "running") && h.guest_state == 1 {
                    EntityStatus::Ready
                } else {
                    EntityStatus::NotReady
                },
                None => EntityStatus::NotReady,
            }
        };
        let boot_count: u64 = match nv.boot {
            Some(b) => b.boot_count as u64,
            None => 0,
        };
        let mut m = Members::new();
        m.set("boot_count", unsigned_value(boot_count));
        if let Some(h) = health {
            m.set("hb_seq", unsigned_value(h.hb_seq as u64));
            m.set("boot_id", unsigned_value(h.boot_id as u64));
        }
        if self.is_disableable() {
            let word = if disabled {
                "disabled"
            } else {
                "enabled"
            };
            m.set("admin_state", text_value(word));
        }
        let ghost base = members_of(m.object);
        if self.setup.fittings.health_probe {
            if let Some(p) = probe {
                if disabled {
                    if p.health.is_some() {
                        m.set("reboot_pending", bool_value(true));
                    }
                } else {
                    let ghost more = p.extensions@;
                    let mut rest = p.extensions;
                    let ghost mut k: nat = 0;
                    while rest.len() > 0
                        invariant
                            m.wf(),
                            k <= more.len(),
                            rest@ == more.skip(k as int),
                            members_of(m.object) == with_extensions(base, more, k),
                        decreases rest@.len(),
                    {
                        let pair = rest.remove(0);
                        assert(pair == more[k as int]);
                        assert(rest@ =~= more.skip(k as int + 1));
                        let ghost v = pair.1;
                        if !has_key(&m.keys, pair.0.as_str()) {
                            m.set(pair.0.as_str(), pair.1);
                        }
                        proof {
                            k = k + 1;
                        }
                    }
                    assert(k == more.len());
                }
            }
        }
        assert(members_of(m.object) == self.runtime_members(*nv, guest, whole));
        let mut extensions = new_object();
        put(&mut extensions, "x-sumo-runtime", object_value(m.object));
        EntityStatusBody { status, extensions }
    }
}

/// A disabled component is never ready, and nothing of its health is shown.
pub proof fn law_disabled_is_not_ready(
    b: ComponentBackend,
    nv: NvView,
    guest: Option<GuestHealth>,
    probe: Option<ProbeReading>,
)
    requires
        b.disabled(nv),
    ensures
        b.readiness(nv, guest, probe) is NotReady,
        b.health_that_counts(nv, guest, probe) is None,
{
}

/// What a probe adds never displaces what the component says itself.
pub proof fn law_extensions_never_displace(
    m: Map<Seq<char>, Json>,
    more: Seq<(String, Value)>,
    k: nat,
    key: Seq<char>,
)
    requires
        m.contains_key(key),
        k <= more.len(),
    ensures
        with_extensions(m, more, k).contains_key(key),
        with_extensions(m, more, k)[key] == m[key],
    decreases k,
{
    if k > 0 {
        law_extensions_never_displace(m, more, (k - 1) as nat, key);
    }
}

/// A component is ready exactly where it is not disabled, and either nothing tells how it
/// is, or what tells it says that it runs: the service for virtual machines where there
/// is one, and else the probe. Any other health, and no answer, is not ready.
pub proof fn law_ready_means_running(
    b: ComponentBackend,
    nv: NvView,
    guest: Option<GuestHealth>,
    probe: Option<ProbeReading>,
    r: EntityStatusBody,
)
    requires
        status_read(b, nv, guest, probe, r),
    ensures
        r.status is Ready <==> {
            &&& !(b.setup.fittings.deactivator && nv.disabled)
            &&& if b.setup.vm_service_addr is Some {
                guest matches Some(h) && h.status@ == "running"@ && h.guest_state == 1
            } else if b.setup.fittings.health_probe {
                probe matches Some(p) && p.health matches Some(h) && h.status@ == "running"@
                    && h.guest_state == 1
            } else {
                true
            }
        },
        r.status is NotReady <==> !(r.status is Ready),
{
}

/// The status tells the boots that were counted. The heartbeat and the life of the guest
/// are in it exactly where a health counts, which is never so for a disabled component;
/// whether it is disabled exactly where it can be; and that a reboot is still to come
/// exactly where it is disabled and its probe answers all the same.
pub proof fn law_the_status_tells_what_runs(
    b: ComponentBackend,
    nv: NvView,
    guest: Option<GuestHealth>,
    probe: Option<ProbeReading>,
)
    requires
        !(b.setup.fittings.health_probe && probe is Some) || b.disabled(nv)
            || probe->0.extensions@.len() == 0,
    ensures
        ({
            let m = b.runtime_members(nv, guest, probe);
            let h = if b.setup.vm_service_addr is Some {
                guest
            } else {
                probe_health(probe)
            };
            &&& m.contains_key("boot_count"@)
            &&& nv.boot matches Some(boot) ==> m["boot_count"@] == Json::Unsigned(
                boot.boot_count as u64,
            )
            &&& nv.boot is None ==> m["boot_count"@] == Json::Unsigned(0)
            &&& m.contains_key("hb_seq"@) <==> !b.disabled(nv) && h is Some
            &&& m.contains_key("boot_id"@) <==> !b.disabled(nv) && h is Some
            &&& m.contains_key("hb_seq"@) ==> m["hb_seq"@] == Json::Unsigned(h->0.hb_seq as u64)
                && m["boot_id"@] == Json::Unsigned(h->0.boot_id as u64)
            &&& m.contains_key("admin_state"@) <==> b.setup.fittings.deactivator
            &&& b.setup.fittings.deactivator && nv.disabled ==> m["admin_state"@] == Json::Text(
                "disabled"@,
            )
            &&& b.setup.fittings.deactivator && !nv.disabled ==> m["admin_state"@] == Json::Text(
                "enabled"@,
            )
            &&& m.contains_key("reboot_pending"@) <==> b.disabled(nv) && b.setup.fittings.health_probe
                && probe_health(probe) is Some
            &&& m.contains_key("reboot_pending"@) ==> m["reboot_pending"@] == Json::Bool(true)
        }),
{
    reveal_strlit("boot_count");
    reveal_strlit("hb_seq");
    reveal_strlit("boot_id");
    reveal_strlit("admin_state");
    reveal_strlit("reboot_pending");
    assert("boot_count"@.len() == 10 && "hb_seq"@.len() == 6 && "boot_id"@.len() == 7);
    assert("admin_state"@.len() == 11 && "reboot_pending"@.len() == 14);
}

/// What a probe adds is in the status under its key, unless the component says something
/// itself there; of two additions under one key the first counts.
pub proof fn law_extensions_are_added(
    m: Map<Seq<char>, Json>,
    more: Seq<(String, Value)>,
    k: nat,
    i: int,
)
    requires
        0 <= i < k <= more.len(),
        !m.contains_key(more[i].0@),
        forall|j: int| 0 <= j < i ==> (#[trigger] more[j]).0@ != more[i].0@,
    ensures
        with_extensions(m, more, k).contains_key(more[i].0@),
        with_extensions(m, more, k)[more[i].0@] == json_of(more[i].1),
    decreases k,
{
    let before = with_extensions(m, more, (k - 1) as nat);
    if i == k - 1 {
        lemma_only_added(m, more, (k - 1) as nat, more[i].0@);
    } else {
        law_extensions_are_added(m, more, (k - 1) as nat, i);
    }
}

proof fn lemma_only_added(m: Map<Seq<char>, Json>, more: Seq<(String, Value)>, k: nat, key: Seq<char>)
    requires
        k <= more.len(),
        !m.contains_key(key),
        forall|j: int| 0 <= j < k ==> (#[trigger] more[j]).0@ != key,
    ensures
        !with_extensions(m, more, k).contains_key(key),
    decreases k,
{
    if k > 0 {
        assert(more[k - 1].0@ != key);
        lemma_only_added(m, more, (k - 1) as nat, key);
    }
}

/// Each trouble code is one fault, in order. A fault is there now exactly where the
/// lowest bit of its status is set, and only then it is an error and no warning; its
/// status is the code's.
pub proof fn law_each_trouble_code_is_a_fault(
    component: Seq<char>,
    dtcs: Seq<DtcEntry>,
    r: Seq<Fault>,
    i: int,
)
    requires
        faults_given(component, dtcs, r),
        0 <= i < dtcs.len(),
    ensures
        r.len() == dtcs.len(),
        r[i].active <==> dtcs[i].status & 1u8 == 1u8,
        r[i].severity is Error <==> r[i].active,
        r[i].severity is Warning <==> !r[i].active,
        r[i].status == dtcs[i].status,
        r[i].code@ == upper_hex_text(dtcs[i].dtc_number as nat, 6),
        r[i].id@ == "dtc_"@ + r[i].code@,
        r[i].message@ == "DTC "@ + r[i].code@,
        r[i].href@ =~= "/vehicle/v1/components/"@ + component + "/faults/"@ + r[i].id@,
{
    assert(fault_of(r[i], dtcs[i], component));
    let status = dtcs[i].status;
    assert(status % 2 == 1 <==> status & 1u8 == 1u8) by (bit_vector);
    reveal_strlit("/faults/dtc_");
    reveal_strlit("/faults/");
    reveal_strlit("dtc_");
    assert("/faults/dtc_"@ =~= "/faults/"@ + "dtc_"@);
}

/// Clearing the faults succeeds exactly where writing it did, and counts all that there
/// were.
pub proof fn law_all_faults_are_cleared(
    dtc_count: u32,
    written: Result<(), String>,
    r: Result<ClearFaultsResult, BackendError>,
)
    requires
        faults_cleared(dtc_count, written, r),
    ensures
        r is Ok <==> written is Ok,
        r matches Ok(c) ==> c.success && c.cleared_count == dtc_count,
        r matches Ok(c) ==> c.message@ == "Cleared "@ + decimal_text(dtc_count as nat) + " faults"@,
        r matches Err(e) ==> e@ == BackendFault::Internal(written->Err_0@),
{
}

/// A component offers to be disabled exactly where it can be, and to be told the time
/// exactly where it is the host and has a security module; nothing else is offered.
pub proof fn law_operations_follow_the_fittings(b: ComponentBackend)
    ensures
        ({
            let ops = all_operations(b);
            let host = b.setup.fittings.hsm && b.setup.bank_set is Os;
            let can = b.setup.fittings.deactivator;
            &&& ops.len() == (if can {
                1nat
            } else {
                0
            }) + (if host {
                1nat
            } else {
                0
            })
            &&& can ==> ops[0].id == "x-sumo-admin-state"@
            &&& host ==> ops.last().id == "x-sumo-attest-time"@
            &&& forall|i: int|
                0 <= i < ops.len() ==> {
                    &&& !(#[trigger] ops[i]).requires_security
                    &&& ops[i].security_level == 0
                    &&& ops[i].href == "/vehicle/v1/components/"@ + b.setup.id()
                        + "/operations/"@ + ops[i].id + "/executions"@
                }
        }),
{
}

/// Only attesting the time can be begun here. It is begun exactly where the manifest is
/// good and has a signed time, and with that time.
pub proof fn law_only_a_signed_time_is_attested(
    operation_id: Seq<char>,
    validated: Result<ValidatedFirmware, ManifestError>,
    r: Result<u64, BackendError>,
)
    requires
        operation_begun(operation_id, validated, r),
    ensures
        r is Ok <==> {
            &&& operation_id == "x-sumo-attest-time"@
            &&& validated matches Ok(v)
            &&& v.signing_time_secs is Some
        },
        r matches Ok(t) ==> validated->Ok_0.signing_time_secs == Some(t),
        operation_id != "x-sumo-attest-time"@ ==> (r matches Err(e) && e@
            == BackendFault::OperationNotFound(operation_id)),
        operation_id == "x-sumo-attest-time"@ ==> (r matches Err(e) ==> e@ is InvalidRequest),
{
}

/// The answer to an attested time names the time and the floor, each as its own member.
pub proof fn law_the_attested_time_is_told(iat: u64, floor: u64)
    ensures
        attested(iat, floor).member("signing_time_secs"@) == Some(Json::Unsigned(iat)),
        attested(iat, floor).member("floor_secs"@) == Some(Json::Unsigned(floor)),
{
    reveal_strlit("signing_time_secs");
    reveal_strlit("floor_secs");
    assert("signing_time_secs"@.len() != "floor_secs"@.len());
}

/// The floor that is told is the one that was read, and the attested time itself where
/// none could be read.
pub proof fn law_the_floor_is_told_as_it_was_read(iat: u64, floor: Option<u64>)
    ensures
        attested_with(iat, floor).member("signing_time_secs"@) == Some(Json::Unsigned(iat)),
        floor matches Some(f) ==> attested_with(iat, floor).member("floor_secs"@) == Some(
            Json::Unsigned(f),
        ),
        floor is None ==> attested_with(iat, floor).member("floor_secs"@) == Some(
            Json::Unsigned(iat),
        ),
{
    law_the_attested_time_is_told(
        iat,
        match floor {
            Some(f) => f,
            None => iat,
        },
    );
}

} // verus!
