use component_mgr::bank_provider::{
    bank_dir_is_payload_empty, BankError, DirEntry, IvdBankProvider, ManifestReadError,
    RecordFault, SealAction, SealEvent, SealTask, SignedManifest, SwitchAction, SwitchEvent,
};
use component_mgr::banks::{bank_dir_name, Bank, BankBootState, BankSet, ResetKind};
use component_mgr::firmware::{FirmwareIdentity, IvdFile, IvdIdentity};
use component_mgr::partition_bank_provider::{
    HashFault, PartSeal, PartSealAction, PartSealEvent, PartitionBankProvider, PartitionPart,
    PayloadSink, RouteAction, RouteEvent,
};
use component_mgr::hashing::FileHash;
use sha2::{Digest, Sha256};
use std::collections::BTreeMap;

fn committed_on(active_bank: Bank) -> Option<BankBootState> {
    Some(BankBootState { active_bank, committed: true, boot_count: 0 })
}

fn armed_on(active_bank: Bank) -> Option<BankBootState> {
    Some(BankBootState { active_bank, committed: false, boot_count: 0 })
}

fn provider(boot: Option<BankBootState>, selector: bool) -> IvdBankProvider {
    IvdBankProvider::new(boot, BankSet::Vm1, false, None, "vm1".into(), false, false, selector)
}

fn disk_provider_no_hsm() -> IvdBankProvider {
    IvdBankProvider::new(
        committed_on(Bank::A),
        BankSet::Vm1,
        false,
        Some("/images".into()),
        "vm1".into(),
        false,
        false,
        false,
    )
}

/// A boot selector and the record of installs, in memory.
struct Node {
    boot: BankBootState,
    primary: BTreeMap<usize, Bank>,
    floor: BTreeMap<usize, Bank>,
}

impl Node {
    fn new(boot: BankBootState) -> Node {
        Node { boot, primary: BTreeMap::new(), floor: BTreeMap::new() }
    }

    fn selected(&self, set: BankSet) -> Option<Bank> {
        self.primary.get(&set.as_index()).copied()
    }

    /// Does what a switch asks for, to its end.
    fn perform(
        &mut self,
        set: BankSet,
        first: SwitchAction,
        next: &dyn Fn(SwitchEvent) -> SwitchAction,
    ) -> Result<(), BankError> {
        let mut action = first;
        loop {
            let event = match action {
                SwitchAction::RunActivator { .. } => SwitchEvent::ActivatorRan(Ok(())),
                SwitchAction::Select(b) => {
                    self.primary.insert(set.as_index(), b);
                    SwitchEvent::Selected
                }
                SwitchAction::RecordCommit => {
                    let outcome = if self.boot.committed {
                        Err(RecordFault { already_committed: true, why: "committed".into() })
                    } else {
                        self.boot.committed = true;
                        Ok(())
                    };
                    SwitchEvent::Recorded(outcome)
                }
                SwitchAction::RecordRollBack => {
                    let outcome = if self.boot.committed {
                        Err(RecordFault { already_committed: false, why: NOT_IN_TRIAL.into() })
                    } else {
                        self.boot.active_bank = self.boot.active_bank.other();
                        self.boot.committed = true;
                        Ok(())
                    };
                    SwitchEvent::Recorded(outcome)
                }
                SwitchAction::SelectorCommit => {
                    self.floor = self.primary.clone();
                    SwitchEvent::Selected
                }
                SwitchAction::SelectorRollBack => {
                    self.primary = self.floor.clone();
                    SwitchEvent::Selected
                }
                SwitchAction::Done => return Ok(()),
                SwitchAction::Failed(e) => return Err(e),
            };
            action = next(event);
        }
    }
}

/// A file, read in pieces.
fn read(bytes: &[u8]) -> FileHash {
    let mut h = FileHash::new();
    for piece in bytes.chunks(64 * 1024) {
        h = h.take(piece);
    }
    h
}

const NOT_IN_TRIAL: &str = "not in trial";

#[test]
fn injected_selector_is_primary_source_for_active_and_target() {
    let boot = committed_on(Bank::A);
    let p = provider(boot, true);
    assert_eq!(p.active_bank(Some(Bank::B)), Bank::B);
    assert_eq!(p.target_bank(Some(Bank::B), &boot), Bank::A);
}

#[test]
fn no_selector_falls_back_to_running_bank() {
    let boot = committed_on(Bank::B);
    let p = provider(boot, false);
    assert_eq!(p.active_bank(None), Bank::B);
    assert_eq!(p.target_bank(None, &boot), Bank::A);
    assert_eq!(p.selected_bank(Some(Bank::A)), None, "without a selector nothing is selected");
}

#[test]
fn selector_without_entry_for_set_falls_back_to_nv() {
    let p = provider(committed_on(Bank::B), true);
    let mut node = Node::new(committed_on(Bank::B).unwrap());
    node.primary.insert(BankSet::Vm2.as_index(), Bank::A);
    assert_eq!(p.active_bank(node.selected(BankSet::Vm1)), Bank::B);
}

#[test]
fn activate_writes_selector_primary() {
    let set = BankSet::Vm1;
    let boot = committed_on(Bank::A).unwrap();
    let p = provider(Some(boot), true);
    let mut node = Node::new(boot);
    node.primary.insert(set.as_index(), Bank::A);
    node.perform(set, p.activate(Bank::B, SwitchEvent::Started), &|e| p.activate(Bank::B, e))
        .unwrap();
    assert_eq!(node.selected(set), Some(Bank::B));
    assert_eq!(p.active_bank(node.selected(set)), Bank::B);
}

#[test]
fn a_single_bank_is_its_own_target() {
    let boot = committed_on(Bank::A);
    let p = IvdBankProvider::new(
        boot,
        BankSet::Hsm,
        true,
        Some("/images".into()),
        "hsm".into(),
        false,
        false,
        false,
    );
    assert_eq!(p.target_bank(None, &boot), Bank::A);
    assert_eq!(p.seed_target_from_active(Bank::A, &boot).unwrap().map(|d| d.source), None);
}

#[test]
fn a_failing_activator_leaves_the_selector_alone() {
    let p = IvdBankProvider::new(
        committed_on(Bank::A),
        BankSet::Rt,
        false,
        Some("/images".into()),
        "rt".into(),
        false,
        true,
        true,
    );
    match p.activate(Bank::B, SwitchEvent::Started) {
        SwitchAction::RunActivator { dir } => assert_eq!(dir, "/images/rt/bank_b"),
        other => panic!("{other:?}"),
    }
    match p.activate(Bank::B, SwitchEvent::ActivatorRan(Err("no link".into()))) {
        SwitchAction::Failed(BankError::Failed(why)) => {
            assert_eq!(why, "bank activation failed: no link")
        }
        other => panic!("{other:?}"),
    }
    assert_eq!(p.reset_kind(ResetKind::RequiresEcuReset), ResetKind::RequiresEcuReset);
    assert_eq!(disk_provider_no_hsm().reset_kind(ResetKind::RequiresEcuReset), ResetKind::Local);
}

#[test]
fn an_update_starts_in_a_clean_place() {
    let plan = disk_provider_no_hsm().prepare_target_bank_dir(Bank::B).unwrap();
    assert_eq!(plan.dir, "/images/vm1/bank_b");
    assert_eq!(plan.stale.len(), 20);
    assert_eq!(plan.stale[0], "/images/vm1-staged.img");
    assert_eq!(plan.stale[19], "/images/vm1-upload-15.tmp");
    assert!(provider(committed_on(Bank::A), false).prepare_target_bank_dir(Bank::B).is_none());
    assert_eq!(bank_dir_name(Bank::A), "bank_a");
    assert_eq!(bank_dir_name(Bank::B), "bank_b");
}

fn signed(raw: Vec<u8>) -> SignedManifest {
    SignedManifest {
        gen: 7,
        files: vec![IvdFile { relative_path: "kernel".into(), sha256: vec![1, 2], size: 12 }],
        identity: IvdIdentity {
            name: "".into(),
            version: "1.2.0".into(),
            ecu_sw_number: "VM1-SW-001".into(),
            supplier_sw_number: "".into(),
            supplier_sw_version: "".into(),
            spare_part_number: "".into(),
            odx_file_id: "".into(),
            system_name: "".into(),
            programming_date: "".into(),
            tester_serial: "SOVD-OTA".into(),
        },
        signature: vec![9; 64],
        raw,
        ivd_version: 1,
        signed_at_unix: 1_700_000_000,
    }
}

#[test]
fn read_installed_reports_even_when_signature_would_not_verify_and_without_hsm() {
    let p = disk_provider_no_hsm();
    let fw = p.read_installed(Bank::B, Ok(signed(vec![0xA1, 0x00]))).unwrap();
    assert_eq!(fw.bank, Bank::B);
    assert_eq!(fw.gen, 7);
    assert_eq!(fw.raw.as_deref(), Some([0xA1, 0x00].as_slice()));
    assert!(fw.signature.is_some());
    assert_eq!(fw.identity.version.as_deref(), Some("1.2.0"));
    assert_eq!(fw.identity.system_name, None, "a blank text says nothing");
    assert_eq!(fw.files[0].name, "kernel");
    let mut padded = [0u8; 32];
    padded[0] = 1;
    padded[1] = 2;
    assert_eq!(fw.files[0].sha256, padded);
}

#[test]
fn read_installed_not_installed_when_manifest_absent() {
    let p = disk_provider_no_hsm();
    match p.read_installed(Bank::B, Err(ManifestReadError::Absent)) {
        Err(BankError::NotInstalled) => {}
        other => panic!("expected NotInstalled, got {other:?}"),
    }
    match p.read_installed(Bank::B, Err(ManifestReadError::Broken("bad cbor".into()))) {
        Err(BankError::Failed(why)) => assert_eq!(why, "read_installed: bad cbor"),
        other => panic!("{other:?}"),
    }
    match provider(None, false).read_installed(Bank::B, Ok(signed(vec![]))) {
        Err(BankError::NotInstalled) => {}
        other => panic!("{other:?}"),
    }
}

#[test]
fn verify_payload_matches_streamed_hash() {
    let payload = vec![0xABu8; 200 * 1024];
    let expected: [u8; 32] = Sha256::digest(&payload).into();
    disk_provider_no_hsm()
        .verify_payload(Bank::B, "rootfs.img", &expected, Ok(read(&payload)))
        .expect("matching bytes must verify");
}

#[test]
fn verify_payload_mismatch_is_unverifiable() {
    let payload = vec![0x11u8; 100 * 1024];
    let found: [u8; 32] = Sha256::digest(&payload).into();
    let wrong: [u8; 32] = Sha256::digest(b"not the payload").into();
    match disk_provider_no_hsm().verify_payload(Bank::B, "rootfs.img", &wrong, Ok(read(&payload)))
    {
        Err(BankError::Unverifiable(why)) => assert_eq!(
            why,
            format!(
                "rootfs.img: inner sha256 mismatch on disk — recomputed {} vs captured {}",
                hex::encode(found),
                hex::encode(wrong)
            )
        ),
        other => panic!("expected Unverifiable on digest mismatch, got {other:?}"),
    }
}

#[test]
fn verify_payload_missing_file_is_failed() {
    let p = disk_provider_no_hsm();
    match p.verify_payload(Bank::B, "absent.img", &[0u8; 32], Err("no such file".into())) {
        Err(BankError::Failed(msg)) => {
            assert_eq!(msg, "verify_payload read /images/vm1/bank_b/absent.img: no such file");
        }
        other => panic!("expected Failed on missing file, got {other:?}"),
    }
}

fn entry(name: &str, is_file: bool) -> DirEntry {
    DirEntry { name: name.into(), is_file }
}

#[test]
fn only_payloads_make_a_bank_worth_sealing() {
    assert!(bank_dir_is_payload_empty(&vec![]));
    assert!(bank_dir_is_payload_empty(&vec![
        entry("ivd-manifest.cbor", true),
        entry("ivd-signature.bin", true),
        entry("policy", false),
    ]));
    assert!(!bank_dir_is_payload_empty(&vec![entry("ivd-manifest.cbor", true), entry("k", true)]));
}

fn task(bank: Bank) -> SealTask {
    SealTask {
        bank,
        identity: FirmwareIdentity {
            version: Some("1.2.0".into()),
            ..FirmwareIdentity::default()
        },
        gen: 1,
        required: vec!["kernel".into()],
    }
}

#[test]
fn a_bank_is_completed_then_sealed() {
    let boot = committed_on(Bank::A);
    let p = IvdBankProvider::new(
        boot,
        BankSet::Vm1,
        false,
        Some("/images".into()),
        "vm1".into(),
        true,
        false,
        false,
    )
    .with_hsm_crypto();
    let t = task(Bank::B);
    match p.seal(&t, SealEvent::Started, &boot) {
        SealAction::Seed(pass) => {
            assert_eq!(pass.source_dir, "/images/vm1/bank_a");
            assert_eq!(pass.target_dir, "/images/vm1/bank_b");
            assert_eq!(pass.required, vec!["kernel".to_string()]);
        }
        other => panic!("{other:?}"),
    }
    match p.seal(&t, SealEvent::Seeded(Ok(())), &boot) {
        SealAction::Look { dir } => assert_eq!(dir, "/images/vm1/bank_b"),
        other => panic!("{other:?}"),
    }
    let evidence = || {
        let found = SealEvent::Looked(Some(vec![entry("kernel", true)]));
        match p.seal(&t, found, &boot) {
            SealAction::AskProvisioned(filled) => filled,
            other => panic!("{other:?}"),
        }
    };
    let told = SealEvent::Provisioned { filled: evidence(), outcome: Ok(true) };
    match p.seal(&t, told, &boot) {
        SealAction::Sign { dir, gen, identity } => {
            assert_eq!(dir, "/images/vm1/bank_b");
            assert_eq!(gen, 1);
            assert_eq!(identity.version, "1.2.0");
            assert_eq!(identity.system_name, "");
        }
        other => panic!("{other:?}"),
    }
    assert!(matches!(
        p.seal(&t, SealEvent::Signed(Ok(())), &boot),
        SealAction::Done { sealed: true }
    ));
    let told = SealEvent::Provisioned { filled: evidence(), outcome: Ok(false) };
    assert!(matches!(p.seal(&t, told, &boot), SealAction::Done { sealed: false }));
    let told = SealEvent::Provisioned { filled: evidence(), outcome: Err("deaf".into()) };
    match p.seal(&t, told, &boot) {
        SealAction::Failed(BankError::Failed(why)) => {
            assert_eq!(why, "ivd sign vm1/bank_b: hsm provisioning probe failed: deaf")
        }
        other => panic!("{other:?}"),
    }
    let empty = SealEvent::Looked(Some(vec![entry("lost+found", false)]));
    assert!(matches!(p.seal(&t, empty, &boot), SealAction::Done { sealed: false }));
    match p.seal(&t, SealEvent::Seeded(Err("busy".into())), &boot) {
        SealAction::Failed(BankError::Failed(why)) => {
            assert_eq!(why, "bank seed from /images/vm1/bank_a to /images/vm1/bank_b: busy")
        }
        other => panic!("{other:?}"),
    }
}

#[test]
fn a_bank_with_payloads_needs_its_keys() {
    let p = disk_provider_no_hsm();
    let found = SealEvent::Looked(Some(vec![entry("kernel", true)]));
    match p.seal(&task(Bank::B), found, &committed_on(Bank::A)) {
        SealAction::Failed(BankError::Failed(why)) => {
            assert_eq!(why, "ivd sign vm1/bank_b: no HSM provider attached — wiring bug")
        }
        other => panic!("{other:?}"),
    }
    match p.seal(&task(Bank::B), SealEvent::Started, &None) {
        SealAction::Failed(BankError::Failed(why)) => assert_eq!(why, "no boot state"),
        other => panic!("{other:?}"),
    }
}

// ---------------------------------------------------------------------------
// Parts on partitions
// ---------------------------------------------------------------------------

fn part(file: &str) -> PartitionPart {
    PartitionPart {
        file: file.into(),
        partition_a: format!("/dev/a-{file}"),
        partition_b: format!("/dev/b-{file}"),
        record: false,
    }
}

fn partitioned(
    boot: Option<BankBootState>,
    parts: Vec<PartitionPart>,
    selector: bool,
) -> PartitionBankProvider {
    let inner = IvdBankProvider::new(
        boot,
        BankSet::Os,
        false,
        Some("/images".into()),
        "os".into(),
        true,
        false,
        selector,
    )
    .with_hsm_crypto();
    PartitionBankProvider::new(inner, parts, true, true)
}

/// Calls that a record got: the op, the bank, and the image where there is one.
type Calls = Vec<(&'static str, Bank, Option<(u64, [u8; 32])>)>;

/// Seals a bank on devices in memory; the inventory that was signed.
fn seal_on(
    p: &PartitionBankProvider,
    bank: Bank,
    devices: &BTreeMap<String, Vec<u8>>,
    refuse: bool,
    calls: &mut Calls,
) -> Result<Option<Vec<IvdFile>>, BankError> {
    let t = SealTask { bank, identity: FirmwareIdentity::default(), gen: 1, required: vec![] };
    let mut s = PartSeal::new();
    let mut signed = None;
    let mut event = PartSealEvent::Started;
    loop {
        event = match p.seal(&mut s, &t, event) {
            PartSealAction::MakeDir { .. } => PartSealEvent::DirMade(Ok(())),
            PartSealAction::LookFor { device } => {
                PartSealEvent::DeviceThere(devices.contains_key(&device))
            }
            PartSealAction::Hash { device } => PartSealEvent::Hashed(Ok(read(&devices[&device]))),
            PartSealAction::TellRecord { size, sha256, .. } => {
                calls.push(("sealed", bank, Some((size, sha256))));
                PartSealEvent::RecordTold(if refuse {
                    Err(BankError::Failed("record refuses this image".into()))
                } else {
                    Ok(())
                })
            }
            PartSealAction::AskProvisioned => PartSealEvent::Provisioned(Ok(true)),
            PartSealAction::Sign { files, .. } => {
                signed = Some(files);
                PartSealEvent::Signed(Ok(()))
            }
            PartSealAction::Done { .. } => return Ok(signed),
            PartSealAction::Failed(e) => return Err(e),
        };
    }
}

/// Routes the records, then switches; what the authorities said at each route.
fn switch(
    p: &PartitionBankProvider,
    node: &mut Node,
    rollback: bool,
    bank: Bank,
    refuse: bool,
    calls: &mut Calls,
) -> Result<Vec<(Option<Bank>, Bank)>, BankError> {
    let set = BankSet::Os;
    let boot = Some(node.boot);
    let step = |e: RouteEvent| {
        if rollback {
            p.rollback(e, &boot, NOT_IN_TRIAL)
        } else {
            p.activate(bank, e)
        }
    };
    let mut seen = Vec::new();
    let mut action = step(RouteEvent::Started);
    loop {
        match action {
            RouteAction::Route { part, bank } => {
                seen.push((node.selected(set), node.boot.active_bank));
                calls.push(("route", bank, None));
                let outcome = if refuse {
                    Err(BankError::Failed("record refuses this route".into()))
                } else {
                    Ok(())
                };
                action = step(RouteEvent::Routed { part, outcome });
            }
            RouteAction::Inner(first) => {
                if rollback {
                    node.perform(set, first, &|e| p.inner.rollback(e))?;
                } else {
                    node.perform(set, first, &|e| p.inner.activate(bank, e))?;
                }
                return Ok(seen);
            }
            RouteAction::Failed(e) => return Err(e),
        }
    }
}

fn sha_of(bytes: &[u8]) -> (u64, [u8; 32]) {
    (bytes.len() as u64, Sha256::digest(bytes).into())
}

fn routes(calls: &Calls) -> Vec<Bank> {
    calls.iter().filter(|c| c.0 == "route").map(|c| c.1).collect()
}

fn node_on(boot: Option<BankBootState>, primary: Bank, floor: Bank) -> Node {
    let mut node = Node::new(boot.unwrap());
    node.primary.insert(BankSet::Os.as_index(), primary);
    node.floor.insert(BankSet::Os.as_index(), floor);
    node
}

#[test]
fn open_writer_targets_the_mapped_device_and_streams() {
    let p = partitioned(committed_on(Bank::A), vec![part("application.img")], false);
    match p.open_payload_writer(Bank::B, "application.img") {
        PayloadSink::Device(d) => assert_eq!(d, "/dev/b-application.img"),
        other => panic!("{other:?}"),
    }
}

#[test]
fn unmapped_part_name_falls_back_to_inner() {
    let p = partitioned(committed_on(Bank::A), vec![part("application.img")], false);
    assert!(matches!(p.open_payload_writer(Bank::A, "ifs"), PayloadSink::Staging));
}

#[test]
fn seal_hashes_partition_back_and_verify_matches() {
    let payload = b"the real host application image bytes".to_vec();
    let p = partitioned(committed_on(Bank::A), vec![part("application.img")], false);
    let mut devices = BTreeMap::new();
    devices.insert("/dev/a-application.img".to_string(), payload.clone());
    let files = seal_on(&p, Bank::A, &devices, false, &mut vec![]).unwrap().unwrap();
    assert_eq!(files.len(), 1);
    assert_eq!(files[0].relative_path, "application.img");
    assert_eq!(files[0].sha256, sha_of(&payload).1.to_vec());
    assert_eq!(files[0].size, payload.len() as u64);
    assert_eq!(p.metadata_dir(Bank::A).unwrap(), "/images/os/bank_a");

    let expected = sha_of(&payload).1;
    p.verify_payload(Bank::A, "application.img", &expected, Ok(read(&payload))).unwrap();
    assert!(matches!(
        p.verify_payload(Bank::A, "application.img", &[0u8; 32], Ok(read(&payload))),
        Err(BankError::Unverifiable(_))
    ));
}

#[test]
fn verify_payload_fails_on_truncated_partition() {
    let full_image = vec![0xABu8; 4096];
    let expected_full = sha_of(&full_image).1;
    let p = partitioned(committed_on(Bank::A), vec![part("application.img")], false);
    let short = read(&full_image[..1024]);
    match p.verify_payload(Bank::A, "application.img", &expected_full, Ok(short)) {
        Err(BankError::Unverifiable(msg)) => {
            assert!(msg.contains(&hex::encode(expected_full)), "{msg}");
        }
        other => panic!("truncated partition must fail verify, got {other:?}"),
    }
    match p.verify_payload(
        Bank::A,
        "application.img",
        &expected_full,
        Err(HashFault::Open("gone".into())),
    ) {
        Err(BankError::Failed(msg)) => {
            assert_eq!(msg, "open /dev/a-application.img for hashing: gone")
        }
        other => panic!("{other:?}"),
    }
}

#[test]
fn sealed_called_once_per_part_with_hash_device_values() {
    let parts = vec![
        part("application.img").with_record(),
        part("ifs").with_record(),
        part("rootfs").with_record(),
    ];
    let p = partitioned(committed_on(Bank::A), parts, false);
    let mut devices = BTreeMap::new();
    let appl = b"the real host application image bytes".to_vec();
    let ifs = vec![0x5Au8; 3000];
    devices.insert("/dev/a-application.img".to_string(), appl.clone());
    devices.insert("/dev/a-ifs".to_string(), ifs.clone());
    let mut calls = vec![];
    seal_on(&p, Bank::A, &devices, false, &mut calls).unwrap();
    assert_eq!(
        calls,
        vec![
            ("sealed", Bank::A, Some(sha_of(&appl))),
            ("sealed", Bank::A, Some(sha_of(&ifs))),
        ]
    );
}

#[test]
fn sealed_error_aborts_seal_before_signing() {
    let parts = vec![part("application.img").with_record(), part("ifs").with_record()];
    let p = partitioned(committed_on(Bank::A), parts, false);
    let mut devices = BTreeMap::new();
    devices.insert("/dev/a-application.img".to_string(), b"application image bytes".to_vec());
    devices.insert("/dev/a-ifs".to_string(), b"ifs image bytes".to_vec());
    let mut calls = vec![];
    let r = seal_on(&p, Bank::A, &devices, true, &mut calls);
    assert!(matches!(r, Err(BankError::Failed(_))));
    assert_eq!(calls.len(), 1, "stopped at the refusing part");
}

#[test]
fn nothing_on_the_devices_is_not_signed() {
    let p = partitioned(committed_on(Bank::A), vec![part("application.img")], false);
    match seal_on(&p, Bank::A, &BTreeMap::new(), false, &mut vec![]) {
        Err(BankError::Failed(why)) => assert_eq!(
            why,
            "partition bank seal: no partition device present to hash — nothing to sign"
        ),
        other => panic!("{other:?}"),
    }
}

#[test]
fn activate_routes_before_the_switch() {
    let boot = committed_on(Bank::A);
    let p = partitioned(boot, vec![part("application.img").with_record()], true);
    let mut node = node_on(boot, Bank::A, Bank::A);
    let mut calls = vec![];
    let seen = switch(&p, &mut node, false, Bank::B, false, &mut calls).unwrap();
    assert_eq!(routes(&calls), [Bank::B]);
    assert_eq!(seen, vec![(Some(Bank::A), Bank::A)]);
    assert_eq!(node.selected(BankSet::Os), Some(Bank::B));
}

#[test]
fn route_error_leaves_selector_untouched() {
    let boot = committed_on(Bank::A);
    let p = partitioned(boot, vec![part("application.img").with_record()], true);
    let mut node = node_on(boot, Bank::A, Bank::A);
    let r = switch(&p, &mut node, false, Bank::B, true, &mut vec![]);
    assert!(matches!(r, Err(BankError::Failed(_))));
    assert_eq!(node.selected(BankSet::Os), Some(Bank::A));
}

#[test]
fn commit_never_routes() {
    let boot = armed_on(Bank::A);
    let p = partitioned(boot, vec![part("application.img").with_record()], true);
    let mut node = node_on(boot, Bank::A, Bank::A);
    let mut calls = vec![];
    switch(&p, &mut node, false, Bank::A, false, &mut calls).unwrap();
    assert_eq!(routes(&calls).len(), 1, "the one route came from activate");
    node.perform(BankSet::Os, p.commit(SwitchEvent::Started), &|e| p.commit(e)).unwrap();
    assert_eq!(routes(&calls).len(), 1, "commit routed nothing");
    assert!(node.boot.committed);
}

#[test]
fn a_second_commit_confirms_the_selector_again() {
    let boot = committed_on(Bank::A);
    let p = provider(boot, true);
    let mut node = Node::new(boot.unwrap());
    node.primary.insert(BankSet::Vm1.as_index(), Bank::A);
    node.perform(BankSet::Vm1, p.commit(SwitchEvent::Started), &|e| p.commit(e)).unwrap();
    assert_eq!(node.floor, node.primary);
}

#[test]
fn rollback_routes_the_bank_nv_lands_on() {
    let boot = armed_on(Bank::B);
    let p = partitioned(boot, vec![part("application.img").with_record()], true);
    let mut node = node_on(boot, Bank::B, Bank::A);
    assert_eq!(p.inner.active_bank(node.selected(BankSet::Os)), Bank::B);
    let mut calls = vec![];
    let seen = switch(&p, &mut node, true, Bank::A, false, &mut calls).unwrap();
    assert_eq!(node.boot.active_bank, Bank::A);
    assert_eq!(p.inner.active_bank(node.selected(BankSet::Os)), Bank::A);
    assert_eq!(routes(&calls), [Bank::A]);
    assert_eq!(seen, vec![(Some(Bank::B), Bank::B)]);
}

#[test]
fn rollback_ignores_the_providers_cached_running_bank() {
    let p = partitioned(
        committed_on(Bank::A),
        vec![part("application.img").with_record()],
        false,
    );
    assert_eq!(p.inner.active_bank(None), Bank::A);
    let mut node = Node::new(armed_on(Bank::B).unwrap());
    let mut calls = vec![];
    switch(&p, &mut node, true, Bank::A, false, &mut calls).unwrap();
    assert_eq!(node.boot.active_bank, Bank::A);
    assert_eq!(routes(&calls), [Bank::A]);
}

#[test]
fn rollback_on_a_committed_set_routes_nothing() {
    let boot = committed_on(Bank::A);
    let p = partitioned(boot, vec![part("application.img").with_record()], true);
    let mut node = node_on(boot, Bank::A, Bank::A);
    let mut calls = vec![];
    match switch(&p, &mut node, true, Bank::A, false, &mut calls) {
        Err(BankError::Failed(msg)) => assert_eq!(msg, NOT_IN_TRIAL),
        other => panic!("a committed set must refuse rollback, got {other:?}"),
    }
    assert!(routes(&calls).is_empty());
    assert_eq!(p.inner.active_bank(node.selected(BankSet::Os)), Bank::A);
}
