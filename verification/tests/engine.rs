use component_mgr::backend::admin::{AdminAction, AdminEvent};
use component_mgr::backend::admission::{
    mark_reboot_owed, node_reboot_owed, GateRequest, NodeResolution, StartAction, StartEvent,
};
use component_mgr::backend::activation::{EndingAction, EndingEvent};
use component_mgr::backend::book::{
    FlashSessionState, FlashTransferState, InstallSource, PackageStatus, StoredPackage,
};
use component_mgr::backend::describe::{CataloguePart, UpdatePackageDescriptor};
use component_mgr::backend::dids::DidNumbers;
use component_mgr::backend::finalize::{FinalizeAction, FinalizeEvent};
use component_mgr::backend::install::{map_ota_error, InstallAction, InstallEvent, OtaError};
use component_mgr::backend::operations::{
    DtcEntry, EntityStatus, FaultSeverity, ProbeReading, ATTEST_TIME_OP_ID,
};
use component_mgr::backend::guest::{GuestHealth, HealthProbe};
use component_mgr::backend::packages::{payload_processed, MultiAction, Unaccepted};
use component_mgr::backend::reconcile::{FetchFault, Reconcile, ReconcileAction};
use component_mgr::backend::setup::{ComponentBackend, ComponentConfig};
use component_mgr::backend::upload::{declared_files, ManifestBuffer, UploadKind, MAX_MANIFEST};
use component_mgr::bank_seed::Streamed;
use component_mgr::bank_spec::BankSetSpec;
use component_mgr::banks::{
    Bank, BankBootState, BankSet, FlashState, FwMeta, NvView, ResetKind, NUM_BANK_SETS,
};
use component_mgr::component_adapter::ComponentAdapter;
use component_mgr::error::BackendError;
use component_mgr::firmware::{FirmwareIdentity, ImageMeta, IvdFile, SuitComponent, SuitManifest};
use component_mgr::hashing::FileHash;
use component_mgr::manifest_provider::{ManifestError, ManifestType, ValidatedFirmware};
use sha2::{Digest, Sha256};
use std::collections::{BTreeMap, BTreeSet};

fn numbers() -> DidNumbers {
    DidNumbers {
        active_bank: 0xFD00,
        committed: 0xFD01,
        min_security_ver: 0xFD02,
        current_security_ver: 0xFD03,
        boot_count: 0xFD04,
        guest_state: 0xFD10,
        heartbeat_seq: 0xFD11,
    }
}

fn nv_on(active_bank: Bank, committed: bool) -> NvView {
    NvView {
        boot: Some(BankBootState { active_bank, committed, boot_count: 0 }),
        meta_a: None,
        meta_b: None,
        reboot_owed: 0,
        disabled: false,
    }
}

fn on_disk(set: BankSet, nv: &NvView, hsm: bool) -> ComponentBackend {
    ComponentBackend::with_options(
        set,
        nv.boot,
        ComponentConfig::default(),
        None,
        Some("/images".into()),
        hsm,
        numbers(),
    )
}

fn backend() -> ComponentBackend {
    ComponentBackend::new(
        BankSet::Vm1,
        nv_on(Bank::A, true).boot,
        ComponentConfig::default(),
        numbers(),
    )
}

fn singleshot_backend() -> ComponentBackend {
    ComponentBackend::new(
        BankSet::Hsm,
        nv_on(Bank::A, true).boot,
        ComponentConfig {
            supports_rollback: false,
            single_bank: true,
            entity_type: "hsm".to_string(),
            log_sources: Vec::new(),
        },
        numbers(),
    )
}

fn firmware(set: BankSet) -> ValidatedFirmware {
    ValidatedFirmware {
        bank_set: set,
        manifest_type: ManifestType::Firmware,
        image_meta: ImageMeta::default(),
        image_data: Vec::new(),
        version_display: "1.0.0".into(),
        image_sha256: None,
        image_size: None,
        raw_envelope: None,
        streamed_files: Vec::new(),
        signing_time_secs: None,
        disable_target: None,
    }
}

fn component(part: &str, digest: &[u8], uri: &str) -> SuitComponent {
    SuitComponent {
        id: Some(vec![b"vm1".to_vec(), part.as_bytes().to_vec()]),
        digest: Some(digest.to_vec()),
        uri: Some(uri.into()),
    }
}

fn manifest(components: Vec<SuitComponent>) -> SuitManifest {
    SuitManifest {
        components,
        model_name: None,
        vendor_name: None,
        version: None,
        description: None,
        integrated: false,
    }
}

fn sha(bytes: &[u8]) -> [u8; 32] {
    Sha256::digest(bytes).into()
}

fn source() -> InstallSource {
    InstallSource {
        cas_base_url: "http://cas".into(),
        trust_anchor: Vec::new(),
        session_id: None,
    }
}

/// Banks and a store of payloads, in memory.
#[derive(Default)]
struct Disk {
    banks: BTreeMap<(&'static str, String), Vec<u8>>,
    store: BTreeMap<String, Vec<u8>>,
    requests: Vec<String>,
    break_next: bool,
}

fn letter(b: Bank) -> &'static str {
    b.as_letter()
}

impl Disk {
    fn put(&mut self, bank: Bank, name: &str, bytes: &[u8]) {
        self.banks.insert((letter(bank), name.into()), bytes.to_vec());
    }

    fn get(&self, bank: Bank, name: &str) -> Option<&Vec<u8>> {
        self.banks.get(&(letter(bank), name.to_string()))
    }

    /// Wipes a bank.
    fn wipe(&mut self, bank: Bank) {
        self.banks.retain(|k, _| k.0 != letter(bank));
    }

    /// Starts an update to the bank that is not active, or the upload of a whole
    /// envelope.
    fn start(
        &mut self,
        b: &mut ComponentBackend,
        nv: &NvView,
        envelope: bool,
    ) -> Result<String, BackendError> {
        let target = nv.boot.unwrap().active_bank.other();
        let mut event = StartEvent::Asked { gate: Ok(()), target };
        loop {
            let action = if envelope {
                b.begin_envelope(event, None, nv)
            } else {
                b.start_flash(event, nv)
            };
            event = match action {
                StartAction::Prepare(leave) => {
                    self.wipe(leave.bank());
                    StartEvent::Prepared { leave, outcome: Ok(()) }
                }
                StartAction::Started(id) => return Ok(id),
                StartAction::Failed(e) => return Err(e),
            };
        }
    }

    /// Brings the components in that were not pushed.
    fn reconcile(&mut self, c: &mut Reconcile) -> Result<Vec<IvdFile>, BackendError> {
        let mut action = c.next_action()?;
        loop {
            action = match action {
                ReconcileAction::CopyForward { name, .. } => {
                    let streamed = match self.get(c.active, &name).cloned() {
                        Some(bytes) => {
                            self.put(c.target, &name, &bytes);
                            Streamed::Whole(FileHash::new().take(&bytes[..5]).take(&bytes[5..]))
                        }
                        None => Streamed::Missing(format!("bank/{name}")),
                    };
                    let addressed =
                        c.next_uri().map(|u| u.starts_with("sha256:")).unwrap_or(false);
                    let target = c.target;
                    let (next, remove) = c.copied(streamed, addressed);
                    if remove {
                        self.banks.remove(&(letter(target), name));
                    }
                    next?
                }
                ReconcileAction::Fetch { name, uri, .. } => {
                    self.requests.push(uri.clone());
                    let found = self.store.get(&uri).cloned();
                    let outcome = match found {
                        None => Err(FetchFault::BlobSize("404".into())),
                        Some(_) if self.break_next => {
                            self.break_next = false;
                            Err(FetchFault::Fetch(BackendError::Internal("cut off".into())))
                        }
                        Some(bytes) => {
                            self.put(c.target, &name, &bytes);
                            Ok(FileHash::new().take(&bytes))
                        }
                    };
                    let target = c.target;
                    let (next, remove) = c.fetched(outcome);
                    if remove {
                        self.banks.remove(&(letter(target), name));
                    }
                    next?
                }
                ReconcileAction::Finished => return Ok(c.done.clone()),
            };
        }
    }
}

// ---------------------------------------------------------------------------
// Components that were not pushed
// ---------------------------------------------------------------------------

#[test]
fn reconcile_unpushed_copies_matching_component() {
    let nv = nv_on(Bank::A, true);
    let content = b"vm1 rootfs the vehicle already has";
    let mut disk = Disk::default();
    disk.put(Bank::A, "rootfs.img", content);
    let m = manifest(vec![component("rootfs.img", &sha(content), "#firmware")]);
    let b = on_disk(BankSet::Vm1, &nv, false);
    let mut c = b.reconcile_unpushed(&nv, 0, 1, Bank::B, Ok(m)).unwrap().unwrap();
    let copied = disk.reconcile(&mut c).unwrap();
    assert_eq!(copied.len(), 1);
    assert_eq!(copied[0].relative_path, "rootfs.img");
    assert_eq!(copied[0].sha256, sha(content).to_vec());
    assert_eq!(copied[0].size, content.len() as u64);
    assert_eq!(disk.get(Bank::B, "rootfs.img").unwrap(), &content.to_vec());
}

#[test]
fn reconcile_unpushed_fails_on_stale_active() {
    let nv = nv_on(Bank::A, true);
    let mut disk = Disk::default();
    disk.put(Bank::A, "rootfs.img", b"STALE local rootfs");
    let declared = sha(b"the version offboard expects");
    let m = manifest(vec![component("rootfs.img", &declared, "#firmware")]);
    let b = on_disk(BankSet::Vm1, &nv, false);
    let mut c = b.reconcile_unpushed(&nv, 0, 1, Bank::B, Ok(m)).unwrap().unwrap();
    let err = disk.reconcile(&mut c).unwrap_err();
    match err {
        BackendError::Internal(why) => assert_eq!(
            why,
            format!(
                "reconcile refused for component 0: rootfs.img: active bank digest {} != \
                 manifest-declared {} — vehicle does not already have this content; no fetch \
                 source / content-addressed uri to fall back to",
                hex::encode(sha(b"STALE local rootfs")),
                hex::encode(declared)
            )
        ),
        other => panic!("{other:?}"),
    }
    assert!(disk.get(Bank::B, "rootfs.img").is_none(), "stale content must not be staged");
}

#[test]
fn reconcile_unpushed_noop_when_all_pushed() {
    let nv = nv_on(Bank::A, true);
    let b = on_disk(BankSet::Vm1, &nv, false);
    let m = manifest(vec![component("rootfs.img", &[0u8; 32], "#firmware")]);
    assert!(b.reconcile_unpushed(&nv, 1, 1, Bank::B, Ok(m)).unwrap().is_none());
}

#[test]
fn reconcile_needs_a_place_a_state_and_a_manifest() {
    let nv = nv_on(Bank::A, true);
    let m = || Ok(manifest(vec![component("rootfs.img", &[0u8; 32], "#f")]));
    let r = backend().reconcile_unpushed(&nv, 0, 1, Bank::B, m());
    assert!(matches!(r, Err(BackendError::Internal(ref w)) if w.contains("images_dir")));
    let b = on_disk(BankSet::Vm1, &nv, false);
    let r = b.reconcile_unpushed(&nv, 0, 1, Bank::A, m());
    assert!(matches!(r, Err(BackendError::Internal(ref w)) if w.contains("self-copy")));
    let r = b.reconcile_unpushed(&NvView { boot: None, ..nv }, 0, 1, Bank::B, m());
    assert!(matches!(r, Err(BackendError::Internal(ref w)) if w == "no boot state"));
    let r = b.reconcile_unpushed(&nv, 0, 1, Bank::B, Err("bad".into()));
    assert!(matches!(r, Err(BackendError::Internal(ref w)) if w == "reconcile decode manifest: bad"));
    let odd = SuitComponent { id: None, digest: None, uri: None };
    let c = b.reconcile_unpushed(&nv, 0, 1, Bank::B, Ok(manifest(vec![odd]))).unwrap().unwrap();
    assert!(matches!(
        c.next_action(),
        Err(BackendError::Internal(ref w))
            if w == "reconcile: manifest has no image_digest for component 0"
    ));
}

#[test]
fn reconcile_fetches_missing_part_by_content_address() {
    let nv = nv_on(Bank::A, true);
    let content = b"vm1 rootfs fetched from the CAS".to_vec();
    let uri = format!("sha256:{}", hex::encode(sha(&content)));
    let mut disk = Disk::default();
    disk.store.insert(uri.clone(), content.clone());
    let m = manifest(vec![component("rootfs.img", &sha(&content), &uri)]);
    let mut b = on_disk(BankSet::Vm1, &nv, false);
    b.set_install_source(source());
    let mut c = b.reconcile_unpushed(&nv, 0, 1, Bank::B, Ok(m)).unwrap().unwrap();
    let done = disk.reconcile(&mut c).unwrap();
    assert_eq!(done.len(), 1);
    assert_eq!(done[0].relative_path, "rootfs.img");
    assert_eq!(done[0].sha256, sha(&content).to_vec());
    assert_eq!(disk.get(Bank::B, "rootfs.img").unwrap(), &content);
    assert_eq!(disk.requests, vec![uri]);
}

#[test]
fn reconcile_copies_matching_parts_and_fetches_only_the_changed_one() {
    let nv = nv_on(Bank::A, true);
    let kernel = b"kernel bytes the vehicle has".to_vec();
    let rootfs = b"rootfs bytes the vehicle has".to_vec();
    let config_new = b"NEW vm config".to_vec();
    let mut disk = Disk::default();
    disk.put(Bank::A, "kernel", &kernel);
    disk.put(Bank::A, "rootfs.img", &rootfs);
    disk.put(Bank::A, "vm-config.yaml", b"OLD vm config");
    let uri = |bytes: &[u8]| format!("sha256:{}", hex::encode(sha(bytes)));
    disk.store.insert(uri(&config_new), config_new.clone());
    let m = manifest(vec![
        component("kernel", &sha(&kernel), &uri(&kernel)),
        component("rootfs.img", &sha(&rootfs), &uri(&rootfs)),
        component("vm-config.yaml", &sha(&config_new), &uri(&config_new)),
    ]);
    let mut b = on_disk(BankSet::Vm1, &nv, false);
    b.set_install_source(source());
    let mut c = b.reconcile_unpushed(&nv, 0, 3, Bank::B, Ok(m)).unwrap().unwrap();
    let done = disk.reconcile(&mut c).unwrap();
    assert_eq!(done.len(), 3);
    assert_eq!(disk.get(Bank::B, "kernel").unwrap(), &kernel);
    assert_eq!(disk.get(Bank::B, "rootfs.img").unwrap(), &rootfs);
    assert_eq!(disk.get(Bank::B, "vm-config.yaml").unwrap(), &config_new);
    assert_eq!(disk.requests, vec![uri(&config_new)]);
}

#[test]
fn reconcile_rejects_tampered_cdn_content() {
    let nv = nv_on(Bank::A, true);
    let content = b"the bytes T2 signed for".to_vec();
    let uri = format!("sha256:{}", hex::encode(sha(&content)));
    let mut disk = Disk::default();
    disk.store.insert(uri.clone(), b"SWAPPED cdn object".to_vec());
    let m = manifest(vec![component("rootfs.img", &sha(&content), &uri)]);
    let mut b = on_disk(BankSet::Vm1, &nv, false);
    b.set_install_source(source());
    let mut c = b.reconcile_unpushed(&nv, 0, 1, Bank::B, Ok(m)).unwrap().unwrap();
    let err = disk.reconcile(&mut c).unwrap_err();
    assert!(matches!(err, BackendError::Internal(_)), "got {err:?}");
    assert!(disk.get(Bank::B, "rootfs.img").is_none());
}

#[test]
fn reconcile_fetch_failure_is_retry_safe_and_resumes() {
    let nv = nv_on(Bank::A, true);
    let content: Vec<u8> = (0..4096u32).flat_map(|i| i.to_le_bytes()).collect();
    let uri = format!("sha256:{}", hex::encode(sha(&content)));
    let mut disk = Disk::default();
    disk.store.insert(uri.clone(), content.clone());
    disk.break_next = true;
    let m = manifest(vec![component("rootfs.img", &sha(&content), &uri)]);
    let mut b = on_disk(BankSet::Vm1, &nv, false);
    b.set_install_source(source());
    let mut c = b.reconcile_unpushed(&nv, 0, 1, Bank::B, Ok(m)).unwrap().unwrap();
    disk.reconcile(&mut c).unwrap_err();
    let done = disk.reconcile(&mut c).unwrap();
    assert_eq!(done[0].sha256, sha(&content).to_vec());
    assert_eq!(disk.requests.len(), 2);
}

#[test]
fn fetch_failures_say_what_failed() {
    let nv = nv_on(Bank::A, true);
    let m = manifest(vec![component("rootfs.img", &[1u8; 32], "sha256:01")]);
    let mut b = on_disk(BankSet::Vm1, &nv, false);
    b.set_install_source(source());
    let c = b.reconcile_unpushed(&nv, 0, 1, Bank::B, Ok(m)).unwrap().unwrap();
    for (fault, want) in [
        (FetchFault::Puller("p".into()), "reconcile: build puller: p"),
        (FetchFault::BlobSize("s".into()), "reconcile: blob size for component 0: s"),
        (FetchFault::TmpDir("t".into()), "reconcile: create cas tmp dir: t"),
        (FetchFault::Writer("w".into()), "reconcile: open bank writer for rootfs.img: w"),
    ] {
        let (r, remove) = c.clone().fetched(Err(fault));
        assert!(!remove);
        assert!(matches!(r, Err(BackendError::Internal(ref w)) if w == want), "{r:?}");
    }
}

// ---------------------------------------------------------------------------
// Finishing an update
// ---------------------------------------------------------------------------

/// A backend whose manifest came and whose payload did not.
fn manifest_only(nv: &NvView, m: &SuitManifest) -> ComponentBackend {
    let mut b = on_disk(BankSet::Vm1, nv, true).with_hsm_crypto();
    Disk::default().start(&mut b, nv, false).unwrap();
    let up = b
        .handle_manifest_upload(
            b"manifest".to_vec(),
            Ok(firmware(BankSet::Vm1)),
            Ok(m.clone()),
            Err(ManifestError::ParseError("detached".into())),
        )
        .unwrap();
    assert!(!up.seal);
    assert!(matches!(b.book.session, Some(FlashSessionState::AwaitingPayload { .. })));
    b
}

/// Finishes an update on a disk in memory; the steps by name.
fn finalize(
    b: &mut ComponentBackend,
    nv: &mut NvView,
    disk: &mut Disk,
    m: &SuitManifest,
    activated: Result<(), String>,
) -> (Result<(), BackendError>, Vec<&'static str>) {
    let mut steps = Vec::new();
    let mut event = FinalizeEvent::Started;
    loop {
        event = match b.finalize_flash(event, nv, ResetKind::Local) {
            FinalizeAction::Reconcile { next, total, .. } => {
                steps.push("reconcile");
                let target = nv.boot.unwrap().active_bank.other();
                let outcome =
                    b.reconcile_unpushed(nv, next, total, target, Ok(m.clone())).and_then(|c| {
                        let mut c = c.unwrap();
                        disk.reconcile(&mut c).map(|_| c)
                    });
                FinalizeEvent::Reconciled(outcome)
            }
            FinalizeAction::Seal => {
                steps.push("seal");
                FinalizeEvent::Sealed(Ok(()))
            }
            FinalizeAction::Provision { .. } => {
                steps.push("provision");
                FinalizeEvent::Provisioned(Ok(()))
            }
            FinalizeAction::LoadKeys { .. } => {
                steps.push("keys");
                FinalizeEvent::KeysLoaded(true)
            }
            FinalizeAction::Install { .. } => {
                steps.push("install");
                let boot = nv.boot.unwrap();
                nv.boot = Some(BankBootState {
                    active_bank: boot.active_bank.other(),
                    committed: false,
                    boot_count: 0,
                });
                FinalizeEvent::Installed
            }
            FinalizeAction::Activate { .. } => {
                steps.push("activate");
                FinalizeEvent::Activated(activated.clone())
            }
            FinalizeAction::RollBack { why } => {
                steps.push("rollback");
                let boot = nv.boot.unwrap();
                nv.boot = Some(BankBootState {
                    active_bank: boot.active_bank.other(),
                    committed: true,
                    boot_count: 0,
                });
                FinalizeEvent::RolledBack(why)
            }
            FinalizeAction::MarkReboot { mask } => {
                steps.push("mark");
                nv.reboot_owed = mask;
                FinalizeEvent::Marked(Ok(()))
            }
            FinalizeAction::Done => return (Ok(()), steps),
            FinalizeAction::Failed(e) => return (Err(e), steps),
        };
    }
}

#[test]
fn finalize_manifest_only_copies_forward_seals_and_flips_nv() {
    let mut nv = nv_on(Bank::A, true);
    let content = b"vm1 rootfs already on the vehicle";
    let mut disk = Disk::default();
    disk.put(Bank::A, "rootfs.img", content);
    let m = manifest(vec![component("rootfs.img", &sha(content), "#firmware")]);
    let mut b = manifest_only(&nv, &m);
    let (r, steps) = finalize(&mut b, &mut nv, &mut disk, &m, Ok(()));
    r.unwrap();
    assert_eq!(steps, ["reconcile", "seal", "install", "activate"]);
    assert_eq!(disk.get(Bank::B, "rootfs.img").unwrap(), &content.to_vec());
    assert!(matches!(b.book.session, Some(FlashSessionState::Complete)));
    let boot = nv.boot.unwrap();
    assert_eq!(boot.active_bank, Bank::B);
    assert!(!boot.committed, "banked install enters trial mode");
    assert!(b.flash_is_finalized());
    let t = b.book.transfer.as_ref().unwrap();
    assert_eq!(t.streamed_files.len(), 1);
    assert_eq!(t.streamed_files[0].relative_path, "rootfs.img");
}

#[test]
fn finalize_manifest_only_fetches_seals_and_flips_nv() {
    let mut nv = nv_on(Bank::A, true);
    let content = b"vm1 rootfs only the CAS has".to_vec();
    let uri = format!("sha256:{}", hex::encode(sha(&content)));
    let mut disk = Disk::default();
    disk.store.insert(uri.clone(), content.clone());
    let m = manifest(vec![component("rootfs.img", &sha(&content), &uri)]);
    let mut b = manifest_only(&nv, &m);
    b.set_install_source(source());
    let (r, steps) = finalize(&mut b, &mut nv, &mut disk, &m, Ok(()));
    r.unwrap();
    assert_eq!(steps, ["reconcile", "seal", "install", "activate"]);
    assert_eq!(disk.get(Bank::B, "rootfs.img").unwrap(), &content);
    assert_eq!(nv.boot.unwrap().active_bank, Bank::B);
    assert!(!nv.boot.unwrap().committed);
    assert!(b.book.install_source.is_none(), "the pull source is consumed");
}

#[test]
fn finalize_activation_failure_rolls_back() {
    let mut nv = nv_on(Bank::B, false);
    let mut b = on_disk(BankSet::Vm1, &nv, false).with_bank_activator();
    let (r, steps) = finalize(
        &mut b,
        &mut nv,
        &mut Disk::default(),
        &manifest(vec![]),
        Err("synthetic activation failure".into()),
    );
    match r.unwrap_err() {
        BackendError::Internal(why) => {
            assert_eq!(why, "bank activation failed: synthetic activation failure")
        }
        other => panic!("{other:?}"),
    }
    assert_eq!(steps, ["activate", "rollback"]);
    assert_eq!(nv.boot.unwrap().active_bank, Bank::A);
    assert!(nv.boot.unwrap().committed);
}

#[test]
fn a_write_through_component_that_restarts_the_node_leaves_a_debt() {
    let mut nv = nv_on(Bank::A, true);
    let mut b = singleshot_backend().with_bank_activator();
    let a = b.finalize_flash(
        FinalizeEvent::Activated(Ok(())),
        &nv,
        ResetKind::RequiresEcuReset,
    );
    match a {
        FinalizeAction::MarkReboot { mask } => {
            assert_eq!(mask, 1 << BankSet::Hsm.as_index());
            nv.reboot_owed = mask;
        }
        other => panic!("{other:?}"),
    }
    let a = b.finalize_flash(FinalizeEvent::Marked(Ok(())), &nv, ResetKind::RequiresEcuReset);
    assert!(matches!(a, FinalizeAction::Done));
    let a = b.finalize_flash(
        FinalizeEvent::Marked(Err("full".into())),
        &nv,
        ResetKind::RequiresEcuReset,
    );
    assert!(matches!(
        a,
        FinalizeAction::Failed(BackendError::Internal(ref w)) if w == "nv write update-session: full"
    ));
}

#[test]
fn keys_need_someone_to_unwrap_them() {
    let nv = nv_on(Bank::A, true);
    let mut b = ComponentBackend::with_options(
        BankSet::Hsm,
        nv.boot,
        ComponentConfig::default(),
        None,
        None,
        true,
        numbers(),
    )
    .with_post_provision_reload();
    let a = b.finalize_flash(FinalizeEvent::Provisioned(Ok(())), &nv, ResetKind::Local);
    assert!(matches!(a, FinalizeAction::LoadKeys { reload: true }));
    let a = b.finalize_flash(FinalizeEvent::KeysLoaded(true), &nv, ResetKind::Local);
    assert!(matches!(
        a,
        FinalizeAction::Failed(BackendError::Internal(ref w)) if w.contains("HsmCryptoProvider")
    ));
    let a = b.finalize_flash(FinalizeEvent::KeysLoaded(false), &nv, ResetKind::Local);
    assert!(matches!(a, FinalizeAction::Activate { bank: Bank::A }));
    let a = b.finalize_flash(FinalizeEvent::Provisioned(Err("no".into())), &nv, ResetKind::Local);
    assert!(matches!(
        a,
        FinalizeAction::Failed(BackendError::Internal(ref w)) if w == "HSM provision: no"
    ));
}

// ---------------------------------------------------------------------------
// Admission
// ---------------------------------------------------------------------------

#[test]
fn legacy_upload_in_trial_is_refused_without_wiping_committed_bank() {
    let nv = nv_on(Bank::B, false);
    let mut disk = Disk::default();
    disk.put(Bank::A, "rootfs.img", b"committed rollback bytes");
    let mut b = on_disk(BankSet::Vm1, &nv, false);
    assert!(matches!(b.upload_kind(), UploadKind::Envelope));
    let err = disk.start(&mut b, &nv, true).unwrap_err();
    assert!(matches!(err, BackendError::Busy(_)), "expected Busy (trial mode), got: {err:?}");
    assert_eq!(
        disk.get(Bank::A, "rootfs.img").expect("committed bank A must not be wiped"),
        &b"committed rollback bytes".to_vec()
    );
    let err = disk.start(&mut b, &nv, false).unwrap_err();
    assert!(matches!(err, BackendError::Busy(_)));
    assert!(disk.get(Bank::A, "rootfs.img").is_some());

    let over = nv_on(Bank::B, true);
    disk.start(&mut b, &over, true).unwrap();
    assert!(disk.get(Bank::A, "rootfs.img").is_none(), "an admitted upload wipes its bank");
}

#[test]
fn a_bank_that_cannot_be_wiped_starts_nothing() {
    let nv = nv_on(Bank::A, true);
    let mut b = on_disk(BankSet::Vm1, &nv, false);
    for envelope in [false, true] {
        let asked = StartEvent::Asked { gate: Ok(()), target: Bank::B };
        let leave = match if envelope {
            b.begin_envelope(asked, None, &nv)
        } else {
            b.start_flash(asked, &nv)
        } {
            StartAction::Prepare(leave) => leave,
            other => panic!("{other:?}"),
        };
        assert_eq!(leave.bank(), Bank::B);
        let prepared = StartEvent::Prepared { leave, outcome: Err("full".into()) };
        let a = if envelope {
            b.begin_envelope(prepared, None, &nv)
        } else {
            b.start_flash(prepared, &nv)
        };
        assert!(matches!(a, StartAction::Failed(BackendError::Internal(ref w)) if w == "full"));
        assert!(b.book.transfer.is_none());
    }
}

#[test]
fn reboot_owed_round_trips_through_nv() {
    let set = BankSet::Vm1;
    assert!(node_reboot_owed(0, None).is_empty());
    let mask = mark_reboot_owed(0, set, true);
    assert_eq!(
        node_reboot_owed(mask, None),
        vec![format!("bank-set {}", set.as_index())]
    );
    let mask = mark_reboot_owed(mask, set, false);
    assert!(node_reboot_owed(mask, None).is_empty());
}

#[test]
fn commit_and_rollback_share_one_resolve_hook() {
    let mut nv = nv_on(Bank::B, false);
    nv.reboot_owed = mark_reboot_owed(0, BankSet::Vm1, true);
    nv.reboot_owed = mark_reboot_owed(nv.reboot_owed, BankSet::Os, true);
    let rest = mark_reboot_owed(0, BankSet::Os, true);
    let b = backend().with_node_coordinator();
    let n = b.resolve_node_transaction(&nv);
    assert_eq!(n.write_reboot_owed, Some(rest));
    assert!(n.leave_staging);
    for rollback in [false, true] {
        let mut b = backend().with_node_coordinator();
        let a = if rollback {
            b.rollback_flash(EndingEvent::Provider(Ok(())), &nv)
        } else {
            b.commit_flash(EndingEvent::Provider(Ok(())), &nv)
        };
        match a {
            EndingAction::Resolve(m) => assert_eq!(m, n),
            other => panic!("{other:?}"),
        }
    }
    nv.reboot_owed = rest;
    assert_eq!(b.resolve_node_transaction(&nv).write_reboot_owed, None);
}

/// A coordinator in memory: one campaign at a time, and whoever is in it.
#[derive(Default)]
struct Coordinator {
    campaign: Option<[u8; 32]>,
    staging: BTreeSet<String>,
}

impl Coordinator {
    fn gate(&mut self, q: &GateRequest) -> Result<(), String> {
        match self.campaign {
            Some(c) if c != q.session_id => Err("mixing".into()),
            _ => {
                self.campaign = Some(q.session_id);
                self.staging.insert(q.component.clone());
                Ok(())
            }
        }
    }

    fn resolve(&mut self, component: &str, n: &NodeResolution) {
        if n.leave_staging {
            self.staging.remove(component);
        }
        if self.staging.is_empty() {
            self.campaign = None;
        }
    }

    fn idle(&self) -> bool {
        self.campaign.is_none() && self.staging.is_empty()
    }

    fn can_start(&mut self, b: &ComponentBackend, nv: &NvView) -> Result<(), BackendError> {
        let labels: Vec<String> = (0..NUM_BANK_SETS).map(|i| format!("set{i}")).collect();
        let q = b.gate_request(nv, &labels)?.expect("there is a coordinator");
        let gate = self.gate(&q);
        b.ensure_flash_can_start(nv, &gate)
    }
}

#[test]
fn install_source_session_id_drives_the_node_gate() {
    let nv = nv_on(Bank::A, true);
    let mut node = Coordinator::default();
    let mut vm1 = on_disk(BankSet::Vm1, &nv, false).with_node_coordinator();
    let mut vm2 = on_disk(BankSet::Vm2, &nv, false).with_node_coordinator();
    let campaign = || InstallSource { session_id: Some([7u8; 32]), ..source() };
    vm1.set_install_source(campaign());
    node.can_start(&vm1, &nv).expect("first campaign member stages");

    let err = node.can_start(&vm2, &nv).expect_err("zero id must not mix into the campaign");
    assert!(matches!(err, BackendError::Busy(ref w) if w == "mixing"), "got {err:?}");

    vm2.set_install_source(campaign());
    node.can_start(&vm2, &nv).expect("sibling joins the same node transaction");
    assert_eq!(node.staging.len(), 2);

    let mut a1 = ComponentAdapter::new(vm1, ResetKind::Local);
    let mut a2 = ComponentAdapter::new(vm2, ResetKind::Local);
    let r1 = a1.abort_install(&nv).unwrap();
    node.resolve("vm1", &r1);
    assert!(!node.idle());
    let r2 = a2.abort_install(&nv).unwrap();
    node.resolve("vm2", &r2);
    assert!(node.idle(), "the node is idle once both have left");
}

#[test]
fn the_gate_is_asked_with_what_the_node_owes() {
    let nv = nv_on(Bank::A, true);
    let labels: Vec<String> = (0..NUM_BANK_SETS).map(|i| format!("set{i}")).collect();
    let vm1 = on_disk(BankSet::Vm1, &nv, false).with_node_coordinator();
    let zero = vm1.gate_request(&nv, &labels).unwrap().unwrap();
    assert_eq!(zero.session_id, [0u8; 32]);
    assert_eq!(zero.component, "vm1");
    let owing = NvView { reboot_owed: mark_reboot_owed(0, BankSet::Os, true), ..nv };
    let q = vm1.gate_request(&owing, &labels).unwrap().unwrap();
    assert_eq!(q.reboot_owed, vec![format!("set{}", BankSet::Os.as_index())]);
}

#[test]
fn injected_provider_is_the_one_backend_uses() {
    let b = backend();
    assert_eq!(b.reset_kind(ResetKind::RequiresEcuReset), ResetKind::Local);
    let b = b.with_bank_provider();
    assert_eq!(b.reset_kind(ResetKind::RequiresEcuReset), ResetKind::RequiresEcuReset);
}

#[test]
fn override_survives_later_rebuild_triggering_builders() {
    let b = backend()
        .with_bank_provider()
        .with_bank_spec(BankSetSpec::for_well_known(BankSet::Vm1));
    assert_eq!(b.reset_kind(ResetKind::RequiresEcuReset), ResetKind::RequiresEcuReset);
    let b = b.with_bank_activator();
    assert_eq!(b.reset_kind(ResetKind::RequiresEcuReset), ResetKind::RequiresEcuReset);
}

fn set_transfer_state(b: &mut ComponentBackend, state: FlashState) {
    b.book.transfer = Some(FlashTransferState {
        transfer_id: "0".into(),
        package_id: String::new(),
        state,
        image_size: 0,
        streamed_files: Vec::new(),
    });
}

#[test]
fn abort_flash_ok_when_no_session() {
    let mut b = backend();
    assert!(!b.flash_is_finalized());
    b.abort_flash(&nv_on(Bank::A, true)).unwrap();
}

#[test]
fn abort_flash_ok_pre_finalize_clears_session() {
    let mut b = backend();
    b.book.session = Some(FlashSessionState::Complete);
    set_transfer_state(&mut b, FlashState::AwaitingActivation);
    assert!(!b.flash_is_finalized());
    assert!(b.flash_in_progress());
    b.abort_flash(&nv_on(Bank::A, true)).unwrap();
    assert!(b.book.session.is_none());
    assert!(b.book.transfer.is_none());
}

#[test]
fn abort_flash_rejected_post_finalize() {
    for st in [
        FlashState::AwaitingReboot,
        FlashState::Activated,
        FlashState::Committed,
        FlashState::RolledBack,
    ] {
        let mut b = backend();
        set_transfer_state(&mut b, st);
        assert!(b.flash_is_finalized(), "{st:?} should be finalized");
        let err = b.abort_flash(&nv_on(Bank::A, true)).unwrap_err();
        assert!(
            matches!(err, BackendError::InvalidRequest(ref w)
                if w == "cannot abort: install already finalized"),
            "{st:?}: expected InvalidRequest, got {err:?}"
        );
        assert!(b.book.transfer.is_some(), "{st:?}");
    }
}

// ---------------------------------------------------------------------------
// Disabling
// ---------------------------------------------------------------------------

#[test]
fn a_component_is_disabled_flag_first_and_refuses_updates() {
    let mut nv = nv_on(Bank::A, true);
    let b = backend();
    assert!(matches!(
        b.set_admin_state(true, AdminEvent::Asked, &nv),
        AdminAction::Failed(_)
    ));
    let b = b.with_deactivator();
    match b.set_admin_state(true, AdminEvent::Asked, &nv) {
        AdminAction::WriteFlag(true) => nv.disabled = true,
        other => panic!("{other:?}"),
    }
    assert!(matches!(
        b.set_admin_state(true, AdminEvent::FlagWritten(Ok(())), &nv),
        AdminAction::Deactivate
    ));
    match b.set_admin_state(true, AdminEvent::Deactivated(Err("stuck".into())), &nv) {
        AdminAction::Done(o) => {
            assert!(o.disabled, "a failed stop stays disabled");
            assert_eq!(o.enact_error.as_deref(), Some("stuck"));
        }
        other => panic!("{other:?}"),
    }
    assert!(b.admin_disabled(&nv));
    let err = b.ensure_flash_can_start(&nv, &Ok(())).unwrap_err();
    assert!(matches!(err, BackendError::Busy(_)));
    let body = b.read_entity_status(&nv, None, None);
    assert_eq!(body.status, EntityStatus::NotReady);
}

#[test]
fn a_component_with_an_update_under_way_is_not_disabled() {
    let nv = nv_on(Bank::A, true);
    let mut b = backend().with_deactivator();
    Disk::default().start(&mut b, &nv, false).unwrap();
    assert!(matches!(
        b.set_admin_state(true, AdminEvent::Asked, &nv),
        AdminAction::Failed(BackendError::Busy(_))
    ));
}

// ---------------------------------------------------------------------------
// The life of an update
// ---------------------------------------------------------------------------

#[test]
fn a_whole_update_from_manifest_to_commit() {
    let mut nv = nv_on(Bank::A, true);
    let content = b"the new kernel".to_vec();
    let m = manifest(vec![component("kernel", &sha(&content), "#kernel")]);
    let mut b = on_disk(BankSet::Vm1, &nv, true).with_hsm_crypto();
    let id = Disk::default().start(&mut b, &nv, false).unwrap();
    assert_eq!(b.get_flash_status(&id).unwrap().state, FlashState::Transferring);
    assert!(matches!(b.upload_kind(), UploadKind::Manifest));
    b.handle_manifest_upload(
        b"manifest".to_vec(),
        Ok(firmware(BankSet::Vm1)),
        Ok(m.clone()),
        Err(ManifestError::DigestMismatch),
    )
    .unwrap();
    assert!(matches!(b.upload_kind(), UploadKind::Payload));
    let plan = b.plan_payload(&Ok(m.clone()), Bank::B).unwrap();
    assert_eq!(plan.name, "kernel");
    assert_eq!(plan.bank, Bank::B);
    assert_eq!(plan.digest, sha(&content).to_vec());
    let broken = b.payload_written(&plan, Err(BackendError::Internal("cut off".into())));
    assert!(matches!(broken, Err(BackendError::Internal(ref w)) if w == "cut off"));
    let other = b.payload_written(&plan, Ok(FileHash::new().take(b"something else")));
    assert!(matches!(other, Err(BackendError::Internal(ref w)) if w.starts_with("kernel: digest ")));
    assert!(matches!(b.upload_kind(), UploadKind::Payload), "still for the same component");
    assert_eq!(b.plan_payload(&Ok(m.clone()), Bank::B).unwrap().component, 0);
    let written = b.payload_written(&plan, Ok(FileHash::new().take(&content))).unwrap();
    assert!(written.last, "all are there");
    assert_eq!(written.sha256, sha(&content));
    let seal = b.ivd_sign_staged_bank(&nv).unwrap();
    assert_eq!(seal.gen, 1);
    let part = b.payload_recorded(&written);
    assert!(b.verify_part(&part, &hex::encode(sha(&content))).is_ok());

    let (r, steps) = finalize(&mut b, &mut nv, &mut Disk::default(), &m, Ok(()));
    r.unwrap();
    assert_eq!(steps, ["install", "activate"]);
    assert_eq!(b.get_flash_status(&id).unwrap().state, FlashState::AwaitingReboot);
    let plan = b.ecu_reset(&nv);
    assert_eq!(plan.write_boot.unwrap().boot_count, 1);
    nv.boot = plan.write_boot;
    b.reset_done(&nv, false);
    assert_eq!(b.running_bank(), Bank::B);
    let mut event = EndingEvent::Started;
    loop {
        event = match b.commit_flash(event, &nv) {
            EndingAction::Commit => EndingEvent::Provider(Ok(())),
            EndingAction::RollBack => panic!("a commit rolls nothing back"),
            EndingAction::Resolve(_) => EndingEvent::Resolved(Ok(())),
            EndingAction::Refresh => EndingEvent::Refreshed,
            EndingAction::ArmEnrollment => EndingEvent::Armed,
            EndingAction::Done => break,
            EndingAction::Failed(e) => panic!("{e:?}"),
        };
    }
    assert!(b.get_flash_status(&id).is_err(), "the transfer is over");
    assert!(b.list_flash_transfers().is_empty());
}

#[test]
fn an_oversized_manifest_is_refused() {
    let mut buf = ManifestBuffer::new();
    buf.take(Ok(vec![0; MAX_MANIFEST])).unwrap();
    assert!(buf.take(Ok(vec![0])).is_err());
    assert!(ManifestBuffer::new().take(Err("cut".into())).is_err());

    let nv = nv_on(Bank::A, true);
    let mut b = on_disk(BankSet::Vm1, &nv, false);
    Disk::default().start(&mut b, &nv, false).unwrap();
    let m = manifest(vec![component("kernel", &sha(b"k"), "#kernel")]);
    let no = b
        .handle_manifest_upload(
            vec![0; MAX_MANIFEST + 1],
            Ok(firmware(BankSet::Vm1)),
            Ok(m.clone()),
            Err(ManifestError::DigestMismatch),
        )
        .unwrap_err();
    assert!(matches!(no.answer, BackendError::InvalidRequest(ref w)
        if w == "manifest too large (>100KB)"));
    assert!(matches!(b.upload_kind(), UploadKind::Manifest));
    assert!(b.list_packages().is_empty());
    b.handle_manifest_upload(
        vec![0; MAX_MANIFEST],
        Ok(firmware(BankSet::Vm1)),
        Ok(m),
        Err(ManifestError::DigestMismatch),
    )
    .unwrap();
}

#[test]
fn a_refused_manifest_may_still_tell_the_time() {
    let nv = nv_on(Bank::A, true);
    let old = || ManifestError::RollbackRejected { seq: 3, min: 5, signing_time_secs: Some(77) };
    let unaccepted = || Unaccepted {
        answer: BackendError::InvalidRequest("too old".into()),
        why: Some(old()),
    };
    let mut b = with_hsm(BankSet::Vm1);
    let no = b.receive_package(Err(old()), None).unwrap_err();
    assert_eq!(no.raise_time, Some(77));
    assert!(matches!(no.answer, BackendError::InvalidRequest(_)));
    assert_eq!(b.receive_manifest(vec![1], Err(unaccepted())).unwrap_err().raise_time, Some(77));
    Disk::default().start(&mut b, &nv, false).unwrap();
    let mut whole = manifest(vec![component("kernel", &sha(b"k"), "#kernel")]);
    whole.integrated = true;
    let no = b
        .handle_manifest_upload(
            vec![1],
            Ok(firmware(BankSet::Vm1)),
            Ok(whole.clone()),
            Err(old()),
        )
        .unwrap_err();
    assert_eq!(no.raise_time, Some(77));
    let no = b
        .handle_manifest_upload(vec![1], Err(unaccepted()), Ok(whole), Err(old()))
        .unwrap_err();
    assert_eq!(no.raise_time, Some(77));
    Disk::default().start(&mut b, &nv, true).unwrap();
    let no = b.finish_envelope(Err(unaccepted())).unwrap_err();
    assert_eq!(no.raise_time, Some(77));
    assert_eq!(b.book.transfer.as_ref().unwrap().state, FlashState::Failed);

    let mut plain = backend();
    assert_eq!(plain.receive_package(Err(old()), None).unwrap_err().raise_time, None);
}

#[test]
fn a_manifest_declares_one_file_for_each_component() {
    let m = manifest(vec![
        component("kernel", &[0; 32], "#k"),
        SuitComponent { id: None, digest: None, uri: None },
    ]);
    assert_eq!(declared_files(&m), vec!["kernel".to_string(), "firmware".to_string()]);
    assert!(declared_files(&manifest(vec![])).is_empty());
}

#[test]
fn how_a_package_is_installed() {
    let nv = NvView {
        meta_a: Some(FwMeta { gen: 4, min_security_ver: 2 }),
        ..nv_on(Bank::A, true)
    };
    let mut b = backend();
    let id = b
        .receive_package(
            Ok(ValidatedFirmware {
                image_meta: ImageMeta { identity: FirmwareIdentity::default(), fw_secver: 3 },
                ..firmware(BankSet::Vm1)
            }),
            None,
        )
        .unwrap();
    match b.install_package(&id, InstallEvent::Started, &nv) {
        InstallAction::RaiseFloor { bank, floor } => {
            assert_eq!(bank, Bank::A);
            assert_eq!(floor, 3);
        }
        other => panic!("{other:?}"),
    }
    assert!(matches!(
        b.install_package(&id, InstallEvent::FloorRaised(Ok(())), &nv),
        InstallAction::Done(_)
    ));
    assert!(matches!(
        b.install_package(&id, InstallEvent::FloorRaised(Err("x".into())), &nv),
        InstallAction::Failed(BackendError::Internal(ref w)) if w == "NV write: x"
    ));
    assert_eq!(b.raised_floor(&nv, 2), None);
    assert!(matches!(
        b.install_package("99", InstallEvent::Started, &nv),
        InstallAction::Failed(BackendError::EntityNotFound(ref w)) if w == "99"
    ));
    b.delete_package(&id).unwrap();
    assert!(b.list_packages().is_empty());
}

/// Installs a package; the steps by name.
fn install(
    b: &mut ComponentBackend,
    id: &str,
    activated: Result<(), String>,
) -> (Result<String, BackendError>, Vec<&'static str>) {
    let nv = nv_on(Bank::A, true);
    let mut steps = Vec::new();
    let mut event = InstallEvent::Started;
    loop {
        event = match b.install_package(id, event, &nv) {
            InstallAction::RaiseTime { .. } => {
                steps.push("time");
                InstallEvent::TimeRaised
            }
            InstallAction::Provision { .. } => {
                steps.push("provision");
                InstallEvent::Provisioned(Ok(()))
            }
            InstallAction::LoadKeys => {
                steps.push("keys");
                InstallEvent::KeysLoaded(true)
            }
            InstallAction::RecordKeys { .. } => {
                steps.push("record");
                InstallEvent::KeysRecorded(Ok(()))
            }
            InstallAction::RaiseFloor { .. } => {
                steps.push("floor");
                InstallEvent::FloorRaised(Ok(()))
            }
            InstallAction::RecordStreamed { .. } | InstallAction::RecordBuffered { .. } => {
                steps.push("record");
                InstallEvent::Recorded(Ok(Bank::B))
            }
            InstallAction::WriteImage { bank, path } => {
                assert_eq!(path, "/images/vm1/bank_b/rootfs.img");
                steps.push("write");
                InstallEvent::ImageWritten { bank, outcome: Ok(()) }
            }
            InstallAction::Activate { bank } => {
                assert_eq!(bank, Bank::B);
                steps.push("activate");
                InstallEvent::Activated(activated.clone())
            }
            InstallAction::RollBack { why } => {
                steps.push("rollback");
                InstallEvent::RolledBack(why)
            }
            InstallAction::Seal { id } => {
                steps.push("seal");
                InstallEvent::Sealed { id, outcome: Ok(()) }
            }
            InstallAction::Done(id) => return (Ok(id), steps),
            InstallAction::Failed(e) => return (Err(e), steps),
        };
    }
}

#[test]
fn a_package_is_installed_by_what_it_holds() {
    let nv = nv_on(Bank::A, true);
    let with = |v: ValidatedFirmware, hsm: bool, crypto: bool| {
        let mut b = on_disk(BankSet::Vm1, &nv, hsm);
        if crypto {
            b = b.with_hsm_crypto();
        }
        let id = b.receive_package(Ok(v), None).unwrap();
        (b, id)
    };
    let buffered = || ValidatedFirmware { image_data: vec![1, 2], ..firmware(BankSet::Vm1) };
    let (mut b, id) = with(buffered(), false, false);
    let (r, steps) = install(&mut b, &id, Ok(()));
    let transfer = r.unwrap();
    assert_eq!(steps, ["record", "write", "activate", "seal"]);
    let status = b.get_flash_status(&transfer).unwrap();
    assert_eq!(status.state, FlashState::AwaitingActivation);
    assert_eq!(status.bytes_total, 2);

    let (mut b, id) = with(buffered(), false, false);
    let (r, steps) = install(&mut b, &id, Err("stuck".into()));
    assert!(matches!(
        r,
        Err(BackendError::Internal(ref w)) if w == "bank activation failed: stuck"
    ));
    assert_eq!(steps, ["record", "write", "activate", "rollback"]);

    let streamed = ValidatedFirmware {
        image_sha256: Some([1; 32]),
        image_size: Some(9),
        signing_time_secs: Some(5),
        ..firmware(BankSet::Vm1)
    };
    let (mut b, id) = with(streamed, true, true);
    let (r, steps) = install(&mut b, &id, Ok(()));
    r.unwrap();
    assert_eq!(steps, ["time", "record", "activate", "seal"]);

    let keys = |raw: Option<Vec<u8>>| ValidatedFirmware {
        manifest_type: ManifestType::HsmKeys,
        raw_envelope: raw,
        ..firmware(BankSet::Vm1)
    };
    let (mut b, id) = with(keys(Some(vec![7])), true, true);
    let (r, steps) = install(&mut b, &id, Ok(()));
    r.unwrap();
    assert_eq!(steps, ["provision", "keys", "record", "seal"]);
    let (mut b, id) = with(keys(Some(vec![7])), true, false);
    assert!(install(&mut b, &id, Ok(())).0.is_err(), "nobody could unwrap");
    let (mut b, id) = with(keys(None), true, true);
    assert!(install(&mut b, &id, Ok(())).0.is_err(), "no envelope");
    let (mut b, id) = with(keys(Some(vec![7])), false, false);
    assert!(install(&mut b, &id, Ok(())).0.is_err(), "no module");
}

#[test]
fn refusals_of_the_record_of_installs() {
    assert!(matches!(map_ota_error(OtaError::InTrial), BackendError::Busy(_)));
    assert!(matches!(map_ota_error(OtaError::AlreadyCommitted), BackendError::Busy(_)));
    assert!(matches!(map_ota_error(OtaError::NotInTrial), BackendError::Busy(_)));
    assert!(matches!(
        map_ota_error(OtaError::SecurityVersionTooLow { image: 1, floor: 2 }),
        BackendError::InvalidRequest(ref w) if w == "security version 1 below anti-rollback floor 2"
    ));
    assert!(matches!(map_ota_error(OtaError::Other("x".into())), BackendError::Internal(_)));
}

// ---------------------------------------------------------------------------
// Trusted time
// ---------------------------------------------------------------------------

/// A security module with a monotonic floor, and the clock of the host.
#[derive(Default)]
struct Module {
    floor: u64,
    clock: Option<u64>,
    broken: bool,
}

impl Module {
    /// Raises the floor, and sets the clock if that is asked for.
    fn raise(&mut self, b: &ComponentBackend, to: Option<u64>) {
        let Some(to) = to else { return };
        let outcome = if self.broken {
            Err("bus".to_string())
        } else {
            self.floor = self.floor.max(to);
            Ok(self.floor)
        };
        if let Some(t) = b.floor_raised(outcome) {
            self.clock = Some(t);
        }
    }
}

fn with_hsm(set: BankSet) -> ComponentBackend {
    ComponentBackend::with_options(
        set,
        nv_on(Bank::A, true).boot,
        ComponentConfig::default(),
        None,
        None,
        true,
        numbers(),
    )
}

#[test]
fn ratchet_advances_the_floor_and_is_monotonic() {
    let b = with_hsm(BankSet::Vm1).with_wall_clock_floor();
    let mut hsm = Module::default();
    assert_eq!(hsm.floor, 0, "floor starts unraised");
    hsm.raise(&b, b.ratchet_time_floor(1_784_600_000));
    assert_eq!(hsm.floor, 1_784_600_000);
    assert_eq!(hsm.clock, Some(1_784_600_000));
    hsm.clock = None;
    hsm.raise(&b, b.ratchet_time_floor(1_000_000_000));
    assert_eq!(hsm.floor, 1_784_600_000);
    assert_eq!(hsm.clock, Some(1_784_600_000), "the clock follows the floor, not the time seen");
    hsm.raise(&b, b.ratchet_time_floor(1_784_600_500));
    assert_eq!(hsm.floor, 1_784_600_500);
    assert_eq!(hsm.clock, Some(1_784_600_500));
    hsm.broken = true;
    hsm.raise(&b, b.ratchet_time_floor(1_900_000_000));
    assert_eq!(hsm.clock, Some(1_784_600_500), "a floor that stays leaves the clock alone");
    assert_eq!(backend().ratchet_time_floor(1), None, "no module, no floor");
    assert_eq!(with_hsm(BankSet::Vm1).floor_raised(Ok(5)), None, "nothing sets the clock");
}

#[test]
fn rejected_but_trust_root_signed_manifest_still_ratchets_the_floor() {
    let b = with_hsm(BankSet::Vm1);
    let mut hsm = Module::default();
    let too_old = ManifestError::RollbackRejected {
        seq: 3,
        min: 5,
        signing_time_secs: Some(1_784_600_000),
    };
    hsm.raise(&b, b.ratchet_time_floor_on_reject(&too_old));
    assert_eq!(hsm.floor, 1_784_600_000);
}

#[test]
fn untrusted_or_timeless_rejections_do_not_move_the_floor() {
    let b = with_hsm(BankSet::Vm1);
    let mut hsm = Module::default();
    for no in [
        ManifestError::SignatureInvalid("bad".into()),
        ManifestError::DigestMismatch,
        ManifestError::RollbackRejected { seq: 3, min: 5, signing_time_secs: None },
    ] {
        hsm.raise(&b, b.ratchet_time_floor_on_reject(&no));
    }
    assert_eq!(hsm.floor, 0, "no trusted signed time, floor untouched");
}

#[test]
fn attest_time_is_advertised_on_the_host_component_with_an_hsm() {
    let ops = with_hsm(BankSet::Os).list_operations();
    assert!(ops.iter().any(|o| o.id == ATTEST_TIME_OP_ID));
    assert!(!with_hsm(BankSet::Vm1).list_operations().iter().any(|o| o.id == ATTEST_TIME_OP_ID));
}

#[test]
fn attest_time_verifies_a_signed_manifest_and_ratchets_the_floor() {
    let iat = 1_784_620_143;
    let b = with_hsm(BankSet::Os);
    let good = ValidatedFirmware { signing_time_secs: Some(iat), ..firmware(BankSet::Os) };
    let mut hsm = Module::default();
    let told = b.start_operation(ATTEST_TIME_OP_ID, Ok(good)).unwrap();
    hsm.raise(&b, b.ratchet_time_floor(told));
    assert_eq!(hsm.floor, iat);
    let shown = b.time_attested(iat, Some(hsm.floor));
    assert_eq!(shown["signing_time_secs"], iat);
    assert_eq!(shown["floor_secs"], iat);
}

#[test]
fn attest_time_rejects_a_manifest_not_signed_by_the_trusted_root() {
    let b = with_hsm(BankSet::Os);
    let no = ManifestError::SignatureInvalid("not the trusted root".into());
    assert!(b.start_operation(ATTEST_TIME_OP_ID, Err(no)).is_err());
    assert!(matches!(
        b.start_operation("nope", Ok(firmware(BankSet::Os))),
        Err(BackendError::OperationNotFound(_))
    ));
}

// ---------------------------------------------------------------------------
// Faults and state
// ---------------------------------------------------------------------------

#[test]
fn faults_are_told_and_cleared() {
    let b = backend();
    let faults = b.get_faults(&vec![DtcEntry { dtc_number: 0x00C0FE, status: 0x09 }]);
    assert_eq!(faults.len(), 1);
    assert!(faults[0].code.contains("C0FE"), "{}", faults[0].code);
    assert!(matches!(faults[0].severity, FaultSeverity::Error | FaultSeverity::Warning));
    let r = b.clear_faults(3, Ok(())).unwrap();
    assert!(r.success);
    assert_eq!(r.cleared_count, 3);
    assert!(b.clear_faults(3, Err("nv".into())).is_err());
}

#[test]
fn a_probe_is_told_and_its_extensions_displace_nothing() {
    let nv = nv_on(Bank::A, true);
    let b = backend().with_health_probe();
    let own: serde_json::Value = serde_json::from_str("\"mine\"").unwrap();
    let probe = ProbeReading {
        health: Some(GuestHealth {
            guest_state: 1,
            hb_seq: 7,
            boot_id: 1,
            status: "running".into(),
        }),
        extensions: vec![
            ("core_temp".to_string(), own.clone()),
            ("hb_seq".to_string(), own),
        ],
    };
    let body = b.read_entity_status(&nv, None, Some(probe));
    assert_eq!(body.status, EntityStatus::Ready);
    let runtime = body.extensions.get("x-sumo-runtime").expect("the runtime is told");
    assert_eq!(runtime["hb_seq"], 7);
    assert_eq!(runtime["core_temp"], "mine");
}

#[test]
fn packages_are_kept_under_ids_of_their_own() {
    let mut b = backend();
    let x = b.receive_package(Ok(firmware(BankSet::Vm1)), None).unwrap();
    let y = b.receive_package(Ok(firmware(BankSet::Vm1)), None).unwrap();
    assert_ne!(x, y);
    let p: &StoredPackage = b.book.packages.get(&x).unwrap();
    assert_eq!(p.status, PackageStatus::Verified);
    let wrong = b.receive_package(Ok(firmware(BankSet::Vm2)), None).unwrap_err();
    assert!(matches!(wrong.answer, BackendError::InvalidRequest(_)), "{wrong:?}");
    let bad = b.receive_package(Err(ManifestError::DigestMismatch), None);
    assert!(bad.is_err());
    assert!(b.verify_package(&x).unwrap().valid);
    assert!(b.get_package("nope").is_err());
}

#[test]
fn parts_that_are_uploaded_on_their_own_make_an_update() {
    let nv = nv_on(Bank::A, true);
    let mut b = on_disk(BankSet::Vm1, &nv, false);
    let bad = Unaccepted { answer: BackendError::Internal("bad".into()), why: None };
    let refused = b.receive_manifest(b"m".to_vec(), Err(bad)).unwrap_err();
    assert!(matches!(refused.answer, BackendError::Internal(ref w) if w == "bad"));
    assert_eq!(refused.raise_time, None);
    let m = b.receive_manifest(b"m".to_vec(), Ok(())).unwrap();
    assert_eq!(b.uploaded_manifest(&m).unwrap(), b"m");
    let slot = b.receive_payload_stream(Some("kernel.bin")).unwrap();
    assert_ne!(slot.id, m);
    assert_eq!(slot.dir, "/images");
    assert_eq!(slot.file_name, format!("upload-{}-kernel.bin", slot.id));
    let unnamed = b.receive_payload_stream(None).unwrap();
    assert_eq!(unnamed.file_name, format!("upload-{}-payload", unnamed.id));

    let digest = sha(b"kernel");
    let said = manifest(vec![component("kernel", &digest, "#kernel")]);
    let parts = vec![("#kernel".to_string(), slot.id.clone())];
    let missing = b.start_flash_multi(&m, &Ok(said.clone()), &parts, 0, Bank::B);
    assert!(
        matches!(missing, Err(BackendError::InvalidRequest(ref w)) if w.ends_with("not found")),
        "the payload was not saved"
    );
    b.payload_saved(&slot, "/images/there".to_string());
    match b.start_flash_multi(&m, &Ok(said.clone()), &parts, 0, Bank::B).unwrap() {
        MultiAction::Process { plan, path } => {
            assert_eq!(path, "/images/there");
            assert_eq!(plan.component, 0);
            assert_eq!(plan.bank, Bank::B);
            assert_eq!(plan.digest, digest.to_vec());
            payload_processed("#kernel", &plan, Ok(FileHash::new().take(b"kernel"))).unwrap();
            assert!(matches!(
                payload_processed("#kernel", &plan, Err("cut".into())),
                Err(BackendError::Internal(ref w)) if w == "payload processing (#kernel): cut"
            ));
            assert!(payload_processed("#kernel", &plan, Ok(FileHash::new())).is_err());
        }
        other => panic!("{other:?}"),
    }
    assert!(matches!(
        b.start_flash_multi(&m, &Ok(said.clone()), &parts, 1, Bank::B).unwrap(),
        MultiAction::Finished(_)
    ));
    let strange = vec![("#other".to_string(), slot.id.clone())];
    assert!(matches!(
        b.start_flash_multi(&m, &Ok(said.clone()), &strange, 0, Bank::B),
        Err(BackendError::InvalidRequest(ref w)) if w == "no component with uri=#other in manifest"
    ));
    assert!(matches!(
        b.start_flash_multi(&m, &Err("cbor".into()), &parts, 0, Bank::B),
        Err(BackendError::Internal(ref w)) if w == "decode manifest: cbor"
    ));
    assert!(matches!(
        b.start_flash_multi("nope", &Ok(said), &parts, 0, Bank::B),
        Err(BackendError::InvalidRequest(ref w)) if w == "manifest nope not found"
    ));
}

#[test]
fn a_payload_on_its_own_needs_a_place() {
    let mut b = backend();
    assert!(matches!(
        b.receive_payload_stream(None),
        Err(BackendError::Internal(ref w)) if w == "no images_dir configured"
    ));
}

#[test]
fn the_catalogue_says_what_the_manifest_says() {
    let nv = nv_on(Bank::A, true);
    let mut b = on_disk(BankSet::Vm1, &nv, false);
    Disk::default().start(&mut b, &nv, false).unwrap();
    let mut m = manifest(vec![component("kernel", &sha(b"k"), "#kernel")]);
    m.model_name = Some("Gateway".into());
    m.version = Some("2.1".into());
    m.description = Some("Faster".into());
    let up = b
        .handle_manifest_upload(
            b"manifest".to_vec(),
            Ok(firmware(BankSet::Vm1)),
            Ok(m),
            Err(ManifestError::DigestMismatch),
        )
        .unwrap();
    let base = UpdatePackageDescriptor {
        update_name: "upload".into(),
        notes: None,
        updated_components: Vec::new(),
        affected_components: Vec::new(),
    };
    let part = |part_id: &str, file_id: &str| CataloguePart {
        part_id: part_id.into(),
        file_id: file_id.into(),
    };
    let said = b.describe_update_package(
        base.clone(),
        &vec![part("kernel", "x"), part("manifest", &up.id)],
    );
    assert_eq!(said.update_name, "Gateway 2.1");
    assert_eq!(said.notes.as_deref(), Some("Faster"));
    assert_eq!(said.updated_components, ["/vehicle/v1/components/vm1"]);
    assert_eq!(said.affected_components, said.updated_components);
    let unknown = b.describe_update_package(base, &vec![part("manifest", "nope")]);
    assert_eq!(unknown.update_name, "upload");
    assert!(unknown.updated_components.is_empty());
}

struct Silent;

impl HealthProbe for Silent {
    fn probe(&self) -> Option<GuestHealth> {
        None
    }
}

#[test]
fn a_probe_has_nothing_to_add_of_its_own_accord() {
    assert!(Silent.probe().is_none());
    assert!(Silent.runtime_extensions().is_empty());
}

#[test]
fn a_component_can_be_given_another_name() {
    let b = backend().with_display_name("Gateway".into());
    assert_eq!(b.entity_info().name, "Gateway");
    assert_eq!(b.entity_info().id, backend().entity_info().id);
}
