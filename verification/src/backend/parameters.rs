//! Which values a component has.

use crate::backend::data::{
    did_text, health_did, identity_did, identity_value, is_identity_did, law_identity_reads_back,
    overlaid, value_json, DataView, INSTALLED_MANIFEST_PARAM_ID, UPDATE_MODE_PARAM_ID,
};
use crate::backend::dids::{
    did_registry, entries_spec, entry_by_did, find_did, registry, DidEntry, DidNumbers, EntrySpec,
};
use crate::backend::setup::ComponentBackend;
use crate::backend::guest::GuestHealth;
use crate::banks::{Bank, ResetKind};
use crate::error::BackendFault;
use crate::firmware::InstalledFirmware;
use crate::logs::entry::text_option;
use crate::outside::hex_text;
use crate::text::{cat2, cat4, upper_hex};
use vstd::prelude::*;

verus! {

/// What group a value belongs to.
#[derive(Debug, Clone, Copy, PartialEq, Eq, Structural)]
pub enum DataCategory {
    /// The group that its number says.
    OfDid(u16),
    /// What identifies the component.
    IdentData,
}

/// A value that can be read.
#[derive(Debug, Clone)]
pub struct ParameterInfo {
    pub id: String,
    pub name: String,
    pub description: Option<String>,
    pub unit: Option<String>,
    pub data_type: Option<String>,
    pub read_only: bool,
    pub href: String,
    pub did: Option<String>,
    pub category: Option<DataCategory>,
}

/// A value that can be read.
pub struct ParamView {
    pub id: Seq<char>,
    pub name: Seq<char>,
    pub description: Option<Seq<char>>,
    pub unit: Option<Seq<char>>,
    pub data_type: Option<Seq<char>>,
    pub read_only: bool,
    pub href: Seq<char>,
    pub did: Option<Seq<char>>,
    pub category: Option<DataCategory>,
}

impl View for ParameterInfo {
    type V = ParamView;

    open spec fn view(&self) -> ParamView {
        ParamView {
            id: self.id@,
            name: self.name@,
            description: text_option(self.description),
            unit: text_option(self.unit),
            data_type: text_option(self.data_type),
            read_only: self.read_only,
            href: self.href@,
            did: text_option(self.did),
            category: self.category,
        }
    }
}

/// What a list of values says.
pub open spec fn params_view(params: Seq<ParameterInfo>) -> Seq<ParamView> {
    params.map_values(|p: ParameterInfo| p@)
}

/// Where a value is read.
pub open spec fn data_href(component: Seq<char>, id: Seq<char>) -> Seq<char> {
    "/vehicle/v1/components/"@ + component + "/data/"@ + id
}

fn href_of(component: &str, id: &str) -> (r: String)
    ensures
        r@ == data_href(component@, id@),
{
    cat4("/vehicle/v1/components/", component, "/data/", id)
}

/// A value of the registry that the component has: those that tell how a guest is
/// only where there is a guest, and those that come out of a manifest only where
/// there is one.
pub open spec fn is_listed(n: DidNumbers, e: EntrySpec, guest: bool, manifest: bool) -> bool {
    (guest || !health_did(n, e.did)) && (manifest || !identity_did(e.did))
}

/// A value of the registry.
pub open spec fn entry_param(component: Seq<char>, e: EntrySpec) -> ParamView {
    ParamView {
        id: e.id,
        name: e.name,
        description: None,
        unit: None,
        data_type: Some(e.kind.word()),
        read_only: !e.writable,
        href: data_href(component, e.id),
        did: Some(did_text(e.did)),
        category: Some(DataCategory::OfDid(e.did)),
    }
}

/// The values of the registry before `k` that the component has.
pub open spec fn listed_entries(
    n: DidNumbers,
    component: Seq<char>,
    guest: bool,
    manifest: bool,
    k: nat,
) -> Seq<ParamView>
    decreases k,
{
    if k == 0 {
        Seq::empty()
    } else {
        let before = listed_entries(n, component, guest, manifest, (k - 1) as nat);
        let e = registry(n)[k - 1];
        if is_listed(n, e, guest, manifest) {
            before.push(entry_param(component, e))
        } else {
            before
        }
    }
}

/// A value that was written at run time.
pub open spec fn runtime_param(component: Seq<char>, did: u16) -> ParamView {
    let id = "runtime_"@ + did_text(did);
    ParamView {
        id,
        name: "Runtime DID 0x"@ + did_text(did),
        description: None,
        unit: None,
        data_type: Some("bytes"@),
        read_only: false,
        href: data_href(component, id),
        did: Some(did_text(did)),
        category: Some(DataCategory::OfDid(did)),
    }
}

/// The values before `k` that were written at run time and are not in the
/// registry.
pub open spec fn listed_runtime(n: DidNumbers, component: Seq<char>, dids: Seq<u16>, k: nat) -> Seq<
    ParamView,
>
    decreases k,
{
    if k == 0 {
        Seq::empty()
    } else {
        let before = listed_runtime(n, component, dids, (k - 1) as nat);
        if entry_by_did(registry(n), dids[k - 1], 0) is Some {
            before
        } else {
            before.push(runtime_param(component, dids[k - 1]))
        }
    }
}

/// The manifest of the installed firmware as a value.
pub open spec fn manifest_param(component: Seq<char>) -> ParamView {
    ParamView {
        id: INSTALLED_MANIFEST_PARAM_ID@,
        name: "Installed firmware manifest (signed IVD)"@,
        description: Some(
            "Committed bank's signature-verified IVD manifest: per-file name + sha256 inventory, firmware SW identity, and the device signature + manifest bytes (base64) for downstream re-verification."@,
        ),
        unit: None,
        data_type: Some("object"@),
        read_only: true,
        href: data_href(component, INSTALLED_MANIFEST_PARAM_ID@),
        did: None,
        category: Some(DataCategory::IdentData),
    }
}

/// How the component is updated as a value.
pub open spec fn update_mode_param(component: Seq<char>) -> ParamView {
    ParamView {
        id: UPDATE_MODE_PARAM_ID@,
        name: "Component update-mode"@,
        description: Some(
            "How this component updates: banked (A/B + trial + rollback) or singleshot (single-bank, write-through, irreversible — e.g. the HSM keystore). Carries update_mode / supports_rollback / dual_bank / reset_kind. Stable per-component config; readable any time, even before first flash."@,
        ),
        unit: None,
        data_type: Some("object"@),
        read_only: true,
        href: data_href(component, UPDATE_MODE_PARAM_ID@),
        did: None,
        category: Some(DataCategory::IdentData),
    }
}

/// All values of a component: those of the registry, those that were written at
/// run time, the manifest where there is one, and how the component is updated.
pub open spec fn all_params(b: ComponentBackend, manifest: bool, runtime: Seq<u16>) -> Seq<
    ParamView,
> {
    let n = b.setup.did_numbers;
    let id = b.setup.id();
    let known = listed_entries(
        n,
        id,
        b.setup.vm_service_addr is Some,
        manifest,
        registry(n).len(),
    ) + listed_runtime(n, id, runtime, runtime.len());
    (if manifest {
        known.push(manifest_param(id))
    } else {
        known
    }).push(update_mode_param(id))
}

fn entry_info(component: &str, e: &DidEntry) -> (r: ParameterInfo)
    ensures
        r@ == entry_param(component@, e@),
{
    ParameterInfo {
        id: e.id.to_owned(),
        name: e.name.to_owned(),
        description: None,
        unit: None,
        data_type: Some(e.kind.as_str().to_owned()),
        read_only: !e.writable,
        href: href_of(component, e.id),
        did: Some(upper_hex(e.did as u32, 4)),
        category: Some(DataCategory::OfDid(e.did)),
    }
}

fn runtime_info(component: &str, did: u16) -> (r: ParameterInfo)
    ensures
        r@ == runtime_param(component@, did),
{
    let number = upper_hex(did as u32, 4);
    let id = cat2("runtime_", number.as_str());
    let href = href_of(component, id.as_str());
    ParameterInfo {
        id,
        name: cat2("Runtime DID 0x", number.as_str()),
        description: None,
        unit: None,
        data_type: Some("bytes".to_owned()),
        read_only: false,
        href,
        did: Some(number),
        category: Some(DataCategory::OfDid(did)),
    }
}

fn push_param(params: &mut Vec<ParameterInfo>, p: ParameterInfo)
    ensures
        params_view(final(params)@) == params_view(old(params)@).push(p@),
{
    params.push(p);
    assert(params_view(params@) =~= params_view(old(params)@).push(p@));
}

impl ComponentBackend {
    /// All values of the component. `manifest_present` says whether the bank that
    /// is served has a manifest, `runtime_dids` which values were written at run
    /// time.
    pub fn list_parameters(&self, manifest_present: bool, runtime_dids: &Vec<u16>) -> (r: Vec<
        ParameterInfo,
    >)
        ensures
            params_view(r@) == all_params(*self, manifest_present, runtime_dids@),
    {
        let n = self.setup.did_numbers;
        let component = self.setup.entity_info.id.as_str();
        let guest = self.setup.vm_service_addr.is_some();
        let reg = did_registry(&n);
        let mut r: Vec<ParameterInfo> = Vec::new();
        let mut i: usize = 0;
        assert(entries_spec(reg@).len() == reg@.len());
        assert(params_view(r@) =~= listed_entries(n, component@, guest, manifest_present, 0));
        while i < reg.len()
            invariant
                i <= reg@.len(),
                reg@.len() == registry(n).len(),
                entries_spec(reg@) == registry(n),
                params_view(r@) == listed_entries(n, component@, guest, manifest_present, i as nat),
            decreases reg@.len() - i,
        {
            assert(entries_spec(reg@)[i as int] == reg@[i as int]@);
            let e = reg[i];
            let health = e.did == n.guest_state || e.did == n.heartbeat_seq;
            if (guest || !health) && (manifest_present || !is_identity_did(e.did)) {
                push_param(&mut r, entry_info(component, &e));
            }
            i += 1;
        }
        let ghost known = params_view(r@);
        let mut j: usize = 0;
        assert(known + listed_runtime(n, component@, runtime_dids@, 0) =~= known);
        while j < runtime_dids.len()
            invariant
                j <= runtime_dids@.len(),
                entries_spec(reg@) == registry(n),
                params_view(r@) == known + listed_runtime(
                    n,
                    component@,
                    runtime_dids@,
                    j as nat,
                ),
            decreases runtime_dids@.len() - j,
        {
            let did: u16 = runtime_dids[j];
            let ghost before = listed_runtime(n, component@, runtime_dids@, j as nat);
            if find_did(&reg, did).is_none() {
                push_param(&mut r, runtime_info(component, did));
                assert((known + before).push(runtime_param(component@, did)) =~= known
                    + before.push(runtime_param(component@, did)));
            }
            j += 1;
        }
        if manifest_present {
            push_param(
                &mut r,
                ParameterInfo {
                    id: INSTALLED_MANIFEST_PARAM_ID.to_owned(),
                    name: "Installed firmware manifest (signed IVD)".to_owned(),
                    description: Some(
                        "Committed bank's signature-verified IVD manifest: per-file name + sha256 inventory, firmware SW identity, and the device signature + manifest bytes (base64) for downstream re-verification.".to_owned(),
                    ),
                    unit: None,
                    data_type: Some("object".to_owned()),
                    read_only: true,
                    href: href_of(component, INSTALLED_MANIFEST_PARAM_ID),
                    did: None,
                    category: Some(DataCategory::IdentData),
                },
            );
        }
        push_param(
            &mut r,
            ParameterInfo {
                id: UPDATE_MODE_PARAM_ID.to_owned(),
                name: "Component update-mode".to_owned(),
                description: Some(
                    "How this component updates: banked (A/B + trial + rollback) or singleshot (single-bank, write-through, irreversible — e.g. the HSM keystore). Carries update_mode / supports_rollback / dual_bank / reset_kind. Stable per-component config; readable any time, even before first flash.".to_owned(),
                ),
                unit: None,
                data_type: Some("object".to_owned()),
                read_only: true,
                href: href_of(component, UPDATE_MODE_PARAM_ID),
                did: None,
                category: Some(DataCategory::IdentData),
            },
        );
        r
    }
}

/// A value that comes out of a manifest is listed exactly where there is one, and
/// a value that tells how a guest is exactly where there is a guest; every other
/// value of the registry is always listed.
pub proof fn law_listing_follows_the_source(
    n: DidNumbers,
    component: Seq<char>,
    guest: bool,
    manifest: bool,
    i: int,
)
    requires
        0 <= i < registry(n).len(),
    ensures
        is_listed(n, registry(n)[i], guest, manifest) ==> listed_entries(
            n,
            component,
            guest,
            manifest,
            registry(n).len(),
        ).contains(entry_param(component, registry(n)[i])),
        forall|p: ParamView| #[trigger]
            listed_entries(n, component, guest, manifest, registry(n).len()).contains(p)
                ==> exists|j: int|
                0 <= j < registry(n).len() && is_listed(n, #[trigger] registry(n)[j], guest, manifest)
                    && p == entry_param(component, registry(n)[j]),
{
    if is_listed(n, registry(n)[i], guest, manifest) {
        lemma_listed(n, component, guest, manifest, registry(n).len(), i);
    }
    assert forall|p: ParamView| #[trigger]
        listed_entries(n, component, guest, manifest, registry(n).len()).contains(p) implies exists|
        j: int,
    |
        0 <= j < registry(n).len() && is_listed(n, #[trigger] registry(n)[j], guest, manifest) && p
            == entry_param(component, registry(n)[j]) by {
        lemma_listed_from(n, component, guest, manifest, registry(n).len(), p);
    }
}

/// Where the bank that is served is the one that the component runs from, and its
/// firmware is the one that is remembered and was laid over the values, each value that
/// the manifest gives is listed, and reads as the bytes that the manifest of the served
/// bank has for it. The numbers that tell how a guest is have to be other numbers.
pub proof fn law_served_identity_reads_back(
    b: ComponentBackend,
    selected: Option<Bank>,
    firmware: InstalledFirmware,
    values: Map<u16, Seq<u8>>,
    i: int,
    runtime: Seq<u16>,
    health: Option<GuestHealth>,
    declared: ResetKind,
)
    requires
        0 <= i < registry(b.setup.did_numbers).len(),
        b.serving(selected) == b.running_bank,
        b.remembered(b.serving(selected)) == Some(firmware),
        b.did_cache@ == overlaid(values, firmware.identity),
        identity_value(firmware.identity, registry(b.setup.did_numbers)[i].did) is Some,
        !health_did(b.setup.did_numbers, registry(b.setup.did_numbers)[i].did),
    ensures
        ({
            let e = registry(b.setup.did_numbers)[i];
            let bytes = identity_value(firmware.identity, e.did)->0;
            &&& all_params(b, true, runtime).contains(entry_param(b.setup.id(), e))
            &&& b.reading(e.id, health, b.serving(selected), declared) == Ok::<
                DataView,
                BackendFault,
            >(
                DataView {
                    id: e.id,
                    name: e.name,
                    value: value_json(e.kind, bytes),
                    raw: Some(hex_text(bytes)),
                    did: Some(did_text(e.did)),
                    length: Some(bytes.len() as usize),
                },
            )
        }),
{
    let n = b.setup.did_numbers;
    let id = b.setup.id();
    let guest = b.setup.vm_service_addr is Some;
    let p = entry_param(id, registry(n)[i]);
    law_identity_reads_back(
        b,
        values,
        firmware.identity,
        i,
        health,
        b.serving(selected),
        declared,
    );
    lemma_listed(n, id, guest, true, registry(n).len(), i);
    let listed = listed_entries(n, id, guest, true, registry(n).len());
    let at = choose|at: int| 0 <= at < listed.len() && listed[at] == p;
    assert(all_params(b, true, runtime)[at] == p);
}

proof fn lemma_listed(
    n: DidNumbers,
    component: Seq<char>,
    guest: bool,
    manifest: bool,
    k: nat,
    i: int,
)
    requires
        0 <= i < k <= registry(n).len(),
        is_listed(n, registry(n)[i], guest, manifest),
    ensures
        listed_entries(n, component, guest, manifest, k).contains(
            entry_param(component, registry(n)[i]),
        ),
    decreases k,
{
    let before = listed_entries(n, component, guest, manifest, (k - 1) as nat);
    let now = listed_entries(n, component, guest, manifest, k);
    if i == k - 1 {
        assert(now[before.len() as int] == entry_param(component, registry(n)[i]));
    } else {
        lemma_listed(n, component, guest, manifest, (k - 1) as nat, i);
        let at = choose|at: int|
            0 <= at < before.len() && before[at] == entry_param(component, registry(n)[i]);
        assert(now[at] == before[at]);
    }
}

proof fn lemma_listed_from(
    n: DidNumbers,
    component: Seq<char>,
    guest: bool,
    manifest: bool,
    k: nat,
    p: ParamView,
)
    requires
        k <= registry(n).len(),
        listed_entries(n, component, guest, manifest, k).contains(p),
    ensures
        exists|j: int|
            0 <= j < k && is_listed(n, #[trigger] registry(n)[j], guest, manifest) && p
                == entry_param(component, registry(n)[j]),
    decreases k,
{
    let before = listed_entries(n, component, guest, manifest, (k - 1) as nat);
    let now = listed_entries(n, component, guest, manifest, k);
    let at = choose|at: int| 0 <= at < now.len() && now[at] == p;
    if at < before.len() {
        assert(before[at] == p);
        lemma_listed_from(n, component, guest, manifest, (k - 1) as nat, p);
    } else {
        assert(is_listed(n, registry(n)[k - 1], guest, manifest));
    }
}

/// A value of the registry is listed as it is registered: under its id, its name, its kind
/// and its number, and as read-only exactly where it cannot be written.
pub proof fn law_values_are_listed_as_registered(component: Seq<char>, e: EntrySpec)
    ensures
        ({
            let p = entry_param(component, e);
            &&& p.id == e.id
            &&& p.name == e.name
            &&& p.read_only <==> !e.writable
            &&& p.did == Some(crate::text::upper_hex_text(e.did as nat, 4))
            &&& p.data_type == Some(e.kind.word())
            &&& p.href == "/vehicle/v1/components/"@ + component + "/data/"@ + e.id
        }),
{
}

proof fn lemma_runtime(n: DidNumbers, component: Seq<char>, dids: Seq<u16>, k: nat, i: int)
    requires
        0 <= i < k <= dids.len(),
        forall|j: int| 0 <= j < registry(n).len() ==> (#[trigger] registry(n)[j]).did != dids[i],
    ensures
        listed_runtime(n, component, dids, k).contains(runtime_param(component, dids[i])),
    decreases k,
{
    let before = listed_runtime(n, component, dids, (k - 1) as nat);
    let now = listed_runtime(n, component, dids, k);
    if i == k - 1 {
        crate::backend::dids::lemma_by_did(registry(n), dids[i], 0);
        assert(now[before.len() as int] == runtime_param(component, dids[i]));
    } else {
        lemma_runtime(n, component, dids, (k - 1) as nat, i);
        let at = choose|at: int|
            0 <= at < before.len() && before[at] == runtime_param(component, dids[i]);
        assert(now[at] == before[at]);
    }
}

/// A value that was written at run time and is not in the registry is listed, as bytes
/// that can be written, and by a name that leads back to its number. The manifest is
/// listed exactly where there is one, and how the component is updated always is.
pub proof fn law_run_time_values_are_listed(
    b: ComponentBackend,
    manifest: bool,
    runtime: Seq<u16>,
    i: int,
)
    ensures
        ({
            let all = all_params(b, manifest, runtime);
            let id = b.setup.id();
            &&& all.len() > 0
            &&& all.last().id == "x-sumo-update-mode"@
            &&& manifest ==> all.len() > 1 && all[all.len() - 2].id == "x-sumo-installed-manifest"@
            &&& 0 <= i < runtime.len() && (forall|j: int|
                0 <= j < registry(b.setup.did_numbers).len() ==> (#[trigger] registry(
                    b.setup.did_numbers,
                )[j]).did != runtime[i]) ==> all.contains(runtime_param(id, runtime[i]))
            &&& 0 <= i < runtime.len() ==> !runtime_param(id, runtime[i]).read_only
                && runtime_param(id, runtime[i]).id == "runtime_"@ + crate::text::upper_hex_text(
                runtime[i] as nat,
                4,
            )
        }),
{
    let n = b.setup.did_numbers;
    let id = b.setup.id();
    let all = all_params(b, manifest, runtime);
    if 0 <= i < runtime.len() && (forall|j: int|
        0 <= j < registry(n).len() ==> (#[trigger] registry(n)[j]).did != runtime[i]) {
        lemma_runtime(n, id, runtime, runtime.len(), i);
        let listed = listed_entries(
            n,
            id,
            b.setup.vm_service_addr is Some,
            manifest,
            registry(n).len(),
        );
        let more = listed_runtime(n, id, runtime, runtime.len());
        let at = choose|at: int|
            0 <= at < more.len() && more[at] == runtime_param(id, runtime[i]);
        assert(all[listed.len() + at] == runtime_param(id, runtime[i]));
    }
}

/// A value of the registry that tells how a guest is, is listed exactly where there is a
/// guest; one that the manifest gives, exactly where there is a manifest; and any other
/// always.
pub proof fn law_when_a_value_is_listed(n: DidNumbers, e: EntrySpec, guest: bool, manifest: bool)
    ensures
        e.did != n.guest_state && e.did != n.heartbeat_seq && !identity_did(e.did) ==> is_listed(
            n,
            e,
            guest,
            manifest,
        ),
        (e.did == n.guest_state || e.did == n.heartbeat_seq) && !identity_did(e.did) ==> (is_listed(
            n,
            e,
            guest,
            manifest,
        ) <==> guest),
        e.did != n.guest_state && e.did != n.heartbeat_seq && identity_did(e.did) ==> (is_listed(
            n,
            e,
            guest,
            manifest,
        ) <==> manifest),
        is_listed(n, e, true, true),
{
}

/// The manifest and how the component is updated are documents that cannot be written,
/// served under their own ids and without a number; a value that was written at run time
/// is bytes.
pub proof fn law_documents_are_listed_as_such(component: Seq<char>, did: u16)
    ensures
        ({
            let m = manifest_param(component);
            let u = update_mode_param(component);
            let r = runtime_param(component, did);
            &&& m.data_type == Some("object"@) && u.data_type == Some("object"@)
            &&& m.read_only && u.read_only
            &&& m.did is None && u.did is None
            &&& m.href == "/vehicle/v1/components/"@ + component + "/data/"@
                + "x-sumo-installed-manifest"@
            &&& u.href == "/vehicle/v1/components/"@ + component + "/data/"@ + "x-sumo-update-mode"@
            &&& r.data_type == Some("bytes"@)
            &&& r.did == Some(crate::text::upper_hex_text(did as nat, 4))
            &&& r.name == "Runtime DID 0x"@ + crate::text::upper_hex_text(did as nat, 4)
            &&& r.href == "/vehicle/v1/components/"@ + component + "/data/"@ + ("runtime_"@
                + crate::text::upper_hex_text(did as nat, 4))
        }),
{
}

} // verus!
