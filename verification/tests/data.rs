use base64::Engine;
use component_mgr::backend::admission::{StartAction, StartEvent};
use component_mgr::backend::data::{
    identity_to_did_bytes, is_identity_did, nv_bytes_to_string, INSTALLED_MANIFEST_PARAM_ID,
    UPDATE_MODE_PARAM_ID,
};
use component_mgr::backend::dids::{parse_hex16, DidNumbers};
use component_mgr::backend::guest::{
    bank_query, guest_state_str, health_request, notice_reply, notice_request, parse_health,
    GuestHealth,
};
use component_mgr::backend::install::{InstallAction, InstallEvent};
use component_mgr::backend::parameters::DataCategory;
use component_mgr::backend::setup::{ComponentBackend, ComponentConfig};
use component_mgr::bank_provider::{DirEntry, IvdBankProvider, SealAction, SealEvent, SealTask, SignedManifest};
use component_mgr::banks::{Bank, BankBootState, BankSet, FlashState, NvView, ResetKind};
use component_mgr::component_adapter::{
    key_type_label, map_backend_error, ComponentAdapter, DidKind, HeldKind, HsmCaps, KeySource,
    KeyType, ProvisioningState, SlotInfo, SlotKind,
};
use component_mgr::error::{BackendError, MachineError};
use component_mgr::firmware::{FirmwareIdentity, ImageMeta, InstalledFirmware, IvdFile, IvdIdentity};
use component_mgr::install_router_diag::{map_machine_error, InstallRouterDiag, Routed};
use component_mgr::lifecycle::RuntimeStatus;
use component_mgr::manifest_provider::{ManifestType, ValidatedFirmware};

fn numbers() -> DidNumbers {
    DidNumbers {
        active_bank: 0xFD00,
        committed: 0xFD01,
        min_security_ver: 0xFD02,
        current_security_ver: 0xFD03,
        boot_count: 0xFD04,
        guest_state: 0xFD10,
        heartbeat_seq: 0xFD11,
    }
}

fn boot() -> Option<BankBootState> {
    Some(BankBootState { active_bank: Bank::A, committed: true, boot_count: 0 })
}

fn nv() -> NvView {
    NvView { boot: boot(), meta_a: None, meta_b: None, reboot_owed: 0, disabled: false }
}

fn backend() -> ComponentBackend {
    ComponentBackend::new(BankSet::Vm1, boot(), ComponentConfig::default(), numbers())
}

fn sample_identity() -> FirmwareIdentity {
    FirmwareIdentity {
        version: Some("1.2.0".into()),
        spare_part_number: Some("VM1-SPARE-001".into()),
        ecu_sw_number: Some("VM1-SW-001".into()),
        supplier_sw_number: Some("SUP-SW-VM1-001".into()),
        supplier_sw_version: Some("1.2.0".into()),
        odx_file_id: Some("ODX-VM1-V1".into()),
        system_name: Some("VM1-Linux".into()),
        programming_date: Some("20260604".into()),
        tester_serial: Some("SOVD-OTA".into()),
        ..FirmwareIdentity::default()
    }
}

/// A component with a package in its transfer.
fn backend_with_package(identity: FirmwareIdentity) -> ComponentBackend {
    let mut b = ComponentBackend::with_options(
        BankSet::Vm1,
        boot(),
        ComponentConfig::default(),
        None,
        Some("/images".into()),
        true,
        numbers(),
    )
    .with_hsm_crypto();
    let id = b
        .receive_package(
            Ok(ValidatedFirmware {
                bank_set: BankSet::Vm1,
                manifest_type: ManifestType::Firmware,
                image_meta: ImageMeta { identity, fw_secver: 0 },
                image_data: Vec::new(),
                version_display: "1.2.0".into(),
                image_sha256: Some([0xAB; 32]),
                image_size: Some(16),
                raw_envelope: None,
                streamed_files: Vec::new(),
                signing_time_secs: None,
                disable_target: None,
            }),
            None,
        )
        .unwrap();
    let a = b.install_package(&id, InstallEvent::Activated(Ok(())), &nv());
    assert!(matches!(a, InstallAction::Seal { .. }));
    b
}

/// Signs the target bank; what was signed.
fn sign_staged(b: &ComponentBackend) -> IvdIdentity {
    let p = IvdBankProvider::new(
        boot(),
        BankSet::Vm1,
        false,
        Some("/images".into()),
        "vm1".into(),
        true,
        false,
        false,
    )
    .with_hsm_crypto();
    let req = b.ivd_sign_staged_bank(&nv()).unwrap();
    let task =
        SealTask { bank: Bank::B, identity: req.identity, gen: req.gen, required: vec![] };
    let found = vec![DirEntry { name: "kernel".into(), is_file: true }];
    let filled = match p.seal(&task, SealEvent::Looked(Some(found)), &boot()) {
        SealAction::AskProvisioned(filled) => filled,
        other => panic!("{other:?}"),
    };
    match p.seal(&task, SealEvent::Provisioned { filled, outcome: Ok(true) }, &boot()) {
        SealAction::Sign { identity, .. } => identity,
        other => panic!("{other:?}"),
    }
}

/// Reads the signed bank back.
fn installed(identity: IvdIdentity, raw: &[u8]) -> InstalledFirmware {
    let p = IvdBankProvider::new(
        boot(),
        BankSet::Vm1,
        false,
        Some("/images".into()),
        "vm1".into(),
        false,
        false,
        false,
    );
    p.read_installed(
        Bank::B,
        Ok(SignedManifest {
            gen: 1,
            files: vec![IvdFile {
                relative_path: "rootfs.img".into(),
                sha256: vec![0xCD; 32],
                size: 16,
            }],
            identity,
            signature: vec![5; 64],
            raw: raw.to_vec(),
            ivd_version: 3,
            signed_at_unix: 1_700_000_000,
        }),
    )
    .unwrap()
}

/// A component that runs on the bank that was just signed.
fn running_on_b(identity: FirmwareIdentity, raw: &[u8]) -> ComponentBackend {
    let mut b = backend_with_package(identity);
    let signed = sign_staged(&b);
    b.running_bank = Bank::B;
    let fw = installed(signed, raw);
    let dids = b.did_reads();
    let none = vec![None; dids.len()];
    b.refresh_did_cache(&dids, none, Some(fw));
    b
}

fn read(b: &ComponentBackend, id: &str) -> Result<serde_json::Value, BackendError> {
    let serving = b.serving_bank(None);
    let vals =
        b.read_data(&vec![id.to_string()], &vec![None], serving, ResetKind::Local)?;
    assert_eq!(vals.len(), 1, "{id}");
    Ok(vals.into_iter().next().unwrap().value)
}

#[test]
fn install_sign_then_read_identity_roundtrips_image_meta() {
    let b = backend_with_package(sample_identity());
    let id = installed(sign_staged(&b), b"m").identity;
    assert_eq!(id.version.as_deref(), Some("1.2.0"));
    assert_eq!(id.ecu_sw_number.as_deref(), Some("VM1-SW-001"));
    assert_eq!(id.system_name.as_deref(), Some("VM1-Linux"));
    assert_eq!(id.spare_part_number.as_deref(), Some("VM1-SPARE-001"));
    assert_eq!(id.supplier_sw_number.as_deref(), Some("SUP-SW-VM1-001"));
    assert_eq!(id.odx_file_id.as_deref(), Some("ODX-VM1-V1"));
}

#[test]
fn read_data_serves_identity_dids_from_manifest_not_nv() {
    let b = running_on_b(sample_identity(), b"m");
    for (param, expected) in [
        ("fw_version", "1.2.0"),
        ("ecu_sw_number", "VM1-SW-001"),
        ("supplier_sw_number", "SUP-SW-VM1-001"),
        ("supplier_sw_version", "1.2.0"),
        ("system_name", "VM1-Linux"),
        ("tester_serial", "SOVD-OTA"),
        ("programming_date", "20260604"),
        ("spare_part_number", "VM1-SPARE-001"),
        ("odx_file_id", "ODX-VM1-V1"),
    ] {
        assert_eq!(read(&b, param).unwrap(), expected, "{param}");
    }
}

#[test]
fn read_data_identity_did_unavailable_before_sign() {
    let mut b = backend_with_package(sample_identity());
    b.running_bank = Bank::B;
    let dids = b.did_reads();
    let none = vec![None; dids.len()];
    b.refresh_did_cache(&dids, none, None);
    let err = read(&b, "fw_version").unwrap_err();
    assert!(matches!(err, BackendError::ParameterNotFound(_)), "{err:?}");
}

#[test]
fn tampered_manifest_identity_is_reported_report_only() {
    let b = running_on_b(sample_identity(), b"tampered");
    assert!(b.verified_bank_manifest(Bank::B).is_some());
    assert!(b.verified_bank_manifest(Bank::A).is_none());
    assert_eq!(read(&b, "fw_version").unwrap(), "1.2.0");
}

#[test]
fn identity_cache_invalidates_on_nv_write() {
    let mut b = running_on_b(sample_identity(), b"m");
    assert_eq!(read(&b, "fw_version").unwrap(), "1.2.0");
    let bumped = FirmwareIdentity { version: Some("2.0.0".into()), ..sample_identity() };
    let signed = sign_staged(&backend_with_package(bumped));
    let dids = b.did_reads();
    let none = vec![None; dids.len()];
    b.refresh_did_cache(&dids, none, Some(installed(signed, b"m2")));
    assert_eq!(read(&b, "fw_version").unwrap(), "2.0.0");
}

#[test]
fn installed_manifest_param_listed_and_read_when_committed() {
    let raw = b"signed manifest bytes";
    let b = running_on_b(sample_identity(), raw);
    let params = b.list_parameters(true, &vec![]);
    let p = params.iter().find(|p| p.id == INSTALLED_MANIFEST_PARAM_ID).unwrap();
    assert!(p.read_only);
    assert_eq!(p.category, Some(DataCategory::IdentData));
    assert!(p.did.is_none());
    let fw = params.iter().find(|p| p.id == "fw_version").unwrap();
    assert_eq!(fw.did.as_deref(), Some("F189"));
    assert_eq!(read(&b, "fw_version").unwrap(), "1.2.0");

    let v = read(&b, INSTALLED_MANIFEST_PARAM_ID).unwrap();
    assert_eq!(v["ivd_version"], 3);
    assert_eq!(v["identity"]["version"], "1.2.0");
    assert_eq!(v["identity"]["ecu_sw_number"], "VM1-SW-001");
    assert_eq!(v["identity"]["system_name"], "VM1-Linux");
    let files = v["files"].as_array().unwrap();
    assert!(files.iter().any(|f| f["path"] == "rootfs.img"));
    for f in files {
        let sha = f["sha256"].as_str().unwrap();
        assert_eq!(sha, hex::encode([0xCDu8; 32]));
    }
    let b64 = base64::engine::general_purpose::STANDARD;
    assert_eq!(b64.decode(v["signature_b64"].as_str().unwrap()).unwrap(), vec![5u8; 64]);
    assert_eq!(b64.decode(v["manifest_b64"].as_str().unwrap()).unwrap(), raw.to_vec());
}

#[test]
fn installed_manifest_param_absent_and_404_without_manifest() {
    let mut b = backend_with_package(sample_identity());
    b.running_bank = Bank::B;
    let params = b.list_parameters(false, &vec![]);
    assert!(!params.iter().any(|p| p.id == INSTALLED_MANIFEST_PARAM_ID));
    assert!(!params.iter().any(|p| is_identity_did(
        u16::from_str_radix(p.did.as_deref().unwrap_or(""), 16).unwrap_or(0)
    )));
    assert!(params.iter().any(|p| p.id == "serial_number"));
    let err = read(&b, INSTALLED_MANIFEST_PARAM_ID).unwrap_err();
    assert!(matches!(err, BackendError::EntityNotFound(_)), "{err:?}");
}

#[test]
fn installed_manifest_param_reports_even_when_signature_would_not_verify() {
    let b = running_on_b(sample_identity(), b"tampered bytes");
    assert!(b
        .list_parameters(true, &vec![])
        .iter()
        .any(|p| p.id == INSTALLED_MANIFEST_PARAM_ID));
    let v = read(&b, INSTALLED_MANIFEST_PARAM_ID).unwrap();
    let b64 = base64::engine::general_purpose::STANDARD;
    assert_eq!(
        b64.decode(v["manifest_b64"].as_str().unwrap()).unwrap(),
        b"tampered bytes".to_vec()
    );
}

#[test]
fn update_mode_param_banked_for_default_component() {
    let b = backend();
    let params = b.list_parameters(false, &vec![]);
    let p = params.iter().find(|p| p.id == UPDATE_MODE_PARAM_ID).unwrap();
    assert!(p.read_only);
    assert!(p.did.is_none());
    let v = read(&b, UPDATE_MODE_PARAM_ID).unwrap();
    assert_eq!(v["update_mode"], "banked");
    assert_eq!(v["supports_rollback"], true);
    assert_eq!(v["dual_bank"], true);
}

#[test]
fn update_mode_param_singleshot_for_hsm_component() {
    let b = ComponentBackend::new(
        BankSet::Hsm,
        boot(),
        ComponentConfig {
            supports_rollback: false,
            single_bank: true,
            entity_type: "hsm".to_string(),
            log_sources: Vec::new(),
        },
        numbers(),
    );
    assert!(b.list_parameters(false, &vec![]).iter().any(|p| p.id == UPDATE_MODE_PARAM_ID));
    let v = read(&b, UPDATE_MODE_PARAM_ID).unwrap();
    assert_eq!(v["update_mode"], "singleshot");
    assert_eq!(v["supports_rollback"], false);
    assert_eq!(v["dual_bank"], false);
}

#[test]
fn values_of_the_store_are_read_and_written() {
    let mut b = backend();
    let dids = b.did_reads();
    let values = dids
        .iter()
        .map(|d| if *d == 0xF190 { Some(b"VIN123\0\0".to_vec()) } else { None })
        .collect();
    b.refresh_did_cache(&dids, values, None);
    assert_eq!(read(&b, "vin").unwrap(), "VIN123");
    assert_eq!(read(&b, "F190").unwrap(), "VIN123");
    assert!(matches!(read(&b, "nothing"), Err(BackendError::ParameterNotFound(_))));
    assert_eq!(nv_bytes_to_string(b"ab\0cd"), "ab");
    assert_eq!(parse_hex16("F190"), Some(0xF190));
    assert_eq!(parse_hex16("F190F"), None);
    assert_eq!(parse_hex16("xyz"), None);
}

// ---------------------------------------------------------------------------
// The service for virtual machines
// ---------------------------------------------------------------------------

#[test]
fn bank_query_maps_each_bank() {
    assert_eq!(bank_query(Some(Bank::A)), "?bank=a");
    assert_eq!(bank_query(Some(Bank::B)), "?bank=b");
    assert_eq!(bank_query(None), "");
}

#[test]
fn the_service_is_told_and_asked() {
    let told = notice_request("vm1", true, Some(Bank::B));
    assert!(told.contains("vm1") && told.contains("?bank=b"), "{told}");
    notice_reply(b"HTTP/1.1 200 OK\r\n\r\n").unwrap();
    assert!(notice_reply(b"HTTP/1.1 500 Oops\r\n\r\n").is_err());
    assert!(health_request("vm1").contains("vm1"));
    let answer = b"HTTP/1.1 200 OK\r\n\r\n{\"guest_state\":1,\"hb_seq\":9,\"boot_id\":2,\"status\":\"running\"}";
    let h: GuestHealth = parse_health(answer).unwrap();
    assert_eq!(h.guest_state, 1);
    assert_eq!(h.hb_seq, 9);
    assert_eq!(h.status, "running");
    assert!(parse_health(b"HTTP/1.1 200 OK\r\n\r\nnot json").is_none());
    assert_ne!(guest_state_str(1), guest_state_str(2));
}

// ---------------------------------------------------------------------------
// The machine interface
// ---------------------------------------------------------------------------

#[test]
fn capabilities_follow_the_fittings() {
    let a = ComponentAdapter::new(backend(), ResetKind::Local);
    let flash = a.capabilities.flash.unwrap();
    assert!(flash.dual_bank && flash.supports_rollback && flash.supports_trial_boot);
    assert!(!flash.abortable_after_finalize);
    assert_eq!(a.capabilities.hsm, None);
    assert!(!a.capabilities.lifecycle.unwrap().has_runtime_state);
    let a = a.with_csr_keystore("/keys".into());
    assert_eq!(
        a.capabilities.hsm,
        Some(HsmCaps { supports_csr: true, supports_key_install: false })
    );
    assert!(matches!(a.get_csr("k", true), Ok(KeySource::Keystore(ref p)) if p == "/keys"));
    let a = a.with_csr_crypto();
    assert!(matches!(a.get_csr("k", true), Ok(KeySource::Crypto)));
    assert!(matches!(a.get_device_id(), Some(KeySource::Crypto)));
    assert_eq!(a.inner().bank_set(), BankSet::Vm1);
    let state = a.runtime_state();
    assert_eq!(state.status, RuntimeStatus::Unknown);
    assert!(state.detail.is_null());
}

#[test]
fn requests_for_certificates_may_be_refused() {
    let a = ComponentAdapter::new(backend(), ResetKind::Local);
    assert!(matches!(
        a.get_csr("k", false),
        Err(MachineError::Internal(ref w)) if w == "CSR for unknown key slot 'k'"
    ));
    assert!(matches!(
        a.get_csr("k", true),
        Err(MachineError::NotSupported(ref w)) if w == "get_csr (no keystore configured)"
    ));
    assert!(matches!(
        a.key_source("list_keys"),
        Err(MachineError::NotSupported(ref w)) if w == "list_keys (no keystore configured)"
    ));
    assert!(a.get_device_id().is_none());
    assert!(matches!(
        a.csr_made(Err("x".into())),
        Err(MachineError::Internal(ref w)) if w == "csr generation failed: x"
    ));
    assert_eq!(a.csr_made(Ok(vec![1])).unwrap(), vec![1]);
}

#[test]
fn keys_are_told_without_their_secrets() {
    let a = ComponentAdapter::new(backend(), ResetKind::Local);
    let slot = |id: &str, kind: HeldKind| SlotInfo {
        key_id: id.into(),
        kind,
        has_certificate: false,
        allowed_ops: vec![1],
        public_key: Some(vec![4; 65]),
    };
    let inv = a
        .list_keys(
            Some(Ok(ProvisioningState::Provisioned)),
            Ok(vec![
                slot("sign", HeldKind::Key(KeyType::EcP256)),
                slot("enc", HeldKind::Key(KeyType::Aes256)),
                slot("floor", HeldKind::Monotonic),
            ]),
        )
        .unwrap();
    assert!(inv.provisioned);
    assert_eq!(inv.keys.len(), 3);
    assert!(matches!(inv.keys[0].kind, SlotKind::Key(ref k) if k == "EC-P256"));
    assert!(inv.keys[0].public_key.is_some());
    assert!(inv.keys[1].public_key.is_none());
    assert!(matches!(inv.keys[2].kind, SlotKind::Monotonic));
    let inv = a.list_keys(Some(Err("down".into())), Ok(vec![])).unwrap();
    assert!(!inv.provisioned);
    assert!(matches!(
        a.list_keys(None, Err("io".into())),
        Err(MachineError::Internal(ref w)) if w == "list slots failed: io"
    ));
    assert_eq!(key_type_label(KeyType::Aes128), "AES-128");
    assert_eq!(key_type_label(KeyType::Ed25519), "Ed25519");
    assert_eq!(key_type_label(KeyType::HmacSha256), "HMAC-SHA256");
}

#[test]
fn values_of_the_machine() {
    let a = ComponentAdapter::new(backend(), ResetKind::Local);
    let dids = a.list_dids(&vec![0xF190, 0xABCD]);
    assert!(!dids.iter().any(|d| d.key == 0xFD10), "no guest, no health");
    let own = dids.last().unwrap();
    assert_eq!(own.id, "runtime_ABCD");
    assert_eq!(own.name, "Runtime DID 0xABCD");
    assert!(own.writable);
    assert_eq!(dids.iter().filter(|d| d.key == 0xF190).count(), 1);
    assert!(matches!(
        a.read_did(0x00AB, None),
        Err(MachineError::NotFound(ref w)) if w == "DID 0x00AB"
    ));
    assert!(matches!(a.write_did(DidKind::Factory), Err(MachineError::PolicyRejected(_))));
    a.write_did(DidKind::Runtime).unwrap();
    assert!(matches!(
        a.did_written(Ok(false)),
        Err(MachineError::Storage(ref w)) if w == "runtime DID store full"
    ));
    assert!(matches!(a.did_written(Err("x".into())), Err(MachineError::Storage(_))));
    a.did_written(Ok(true)).unwrap();
}

#[test]
fn refusals_keep_their_words_both_ways() {
    for (e, want) in [
        (BackendError::SecurityRequired(3), "security level 3 required"),
        (BackendError::SessionRequired("prog".into()), "session change required: prog"),
    ] {
        match map_backend_error(e) {
            MachineError::PolicyRejected(w) => assert_eq!(w, want),
            other => panic!("{other:?}"),
        }
    }
    let ecu = BackendError::EcuError { message: "busy".into(), nrc: 0x21, sid: 0x0A };
    assert!(matches!(
        map_backend_error(ecu),
        MachineError::Internal(ref w) if w == "ECU error NRC=0x21 SID=0x0A: busy"
    ));
    assert!(matches!(map_backend_error(BackendError::Timeout), MachineError::Internal(ref w) if w == "timeout"));
    assert!(matches!(
        map_machine_error(map_backend_error(BackendError::UnsupportedMediaType("t".into()))),
        BackendError::UnsupportedMediaType(ref w) if w == "t"
    ));
    assert!(matches!(
        map_machine_error(MachineError::PolicyRejected("p".into())),
        BackendError::InvalidRequest(ref w) if w == "p"
    ));
    assert!(matches!(
        map_machine_error(MachineError::WrongTarget("p".into())),
        BackendError::UnsupportedMediaType(_)
    ));
    assert!(matches!(
        map_machine_error(MachineError::Storage("p".into())),
        BackendError::Internal(_)
    ));
}

#[test]
fn what_the_router_does_not_do_the_engine_does() {
    let d = InstallRouterDiag::new();
    assert!(matches!(d.route(Ok::<u8, MachineError>(1)), Routed::Answer(1)));
    assert!(matches!(
        d.route(Err::<u8, MachineError>(MachineError::NotSupported("x".into()))),
        Routed::Engine
    ));
    assert!(matches!(
        d.route(Err::<u8, MachineError>(MachineError::Busy("b".into()))),
        Routed::Refused(BackendError::Busy(_))
    ));
    assert!(matches!(d.get_activation_state(Ok(None::<u8>)), Routed::Engine));
    assert!(matches!(d.get_activation_state(Ok(Some(2u8))), Routed::Answer(2)));
    let up = d.upload_via_install_pipeline(Err(MachineError::NotSupported("x".into())));
    assert!(matches!(
        up,
        Err(BackendError::NotSupported(ref w)) if w == "component does not support install pipeline"
    ));
    assert_eq!(d.upload_via_install_pipeline(Ok("7".into())).unwrap(), "7");
}

fn start(b: &mut ComponentBackend) {
    let asked = StartEvent::Asked { gate: Ok(()), target: Bank::B };
    let leave = match b.start_flash(asked, &nv()) {
        StartAction::Prepare(leave) => leave,
        other => panic!("{other:?}"),
    };
    let prepared = StartEvent::Prepared { leave, outcome: Ok(()) };
    assert!(matches!(b.start_flash(prepared, &nv()), StartAction::Started(_)));
}

#[test]
fn an_install_is_given_up_until_it_is_finalized() {
    let mut fresh = backend();
    start(&mut fresh);
    let mut a = ComponentAdapter::new(fresh, ResetKind::Local);
    assert!(a.inner().flash_in_progress());
    a.abort_install(&nv()).unwrap();
    assert!(!a.inner().flash_in_progress());

    let mut late = backend();
    start(&mut late);
    late.book.transfer.as_mut().unwrap().state = FlashState::AwaitingReboot;
    let mut a = ComponentAdapter::new(late, ResetKind::Local);
    assert!(matches!(
        a.abort_install(&nv()),
        Err(MachineError::PolicyRejected(ref w)) if w == "cannot abort: install already finalized"
    ));
    assert!(a.inner().flash_in_progress());
}

#[test]
fn an_identity_gives_its_values_in_their_widths() {
    let id = FirmwareIdentity {
        version: Some("1.2.0".into()),
        system_name: Some(String::new()),
        programming_date: Some("2026060412".into()),
        ..FirmwareIdentity::default()
    };
    let pairs = identity_to_did_bytes(&id);
    assert_eq!(pairs.len(), 2, "absent and empty fields have no value");
    assert_eq!(pairs[0].1.len(), 32);
    assert_eq!(&pairs[0].1[..6], b"1.2.0\0");
    assert_eq!(pairs[1].1, b"20260604", "cut to the width of a date");
    assert!(pairs.iter().all(|p| is_identity_did(p.0)));
}
