use component_mgr::app_install_router::{
    collect_first_upload, is_container_image_manifest_for_vm, AppInstallRouterComponent,
    InstallTarget, MAX_CHUNK_SIZE,
};
use component_mgr::bank_spec::{payload_target_name_for_id, BankSetSpec};
use component_mgr::banks::BankSet;
use component_mgr::dispatcher::{check_target, peek_target_component, target_component};
use component_mgr::error::MachineError;
use component_mgr::firmware::{SuitComponent, SuitManifest};
use component_mgr::manifest_provider::ManifestError;

fn component(segments: &[&str]) -> SuitComponent {
    SuitComponent {
        id: Some(segments.iter().map(|s| s.as_bytes().to_vec()).collect()),
        digest: Some(vec![0u8; 32]),
        uri: None,
    }
}

fn manifest(components: Vec<SuitComponent>) -> SuitManifest {
    SuitManifest {
        components,
        model_name: None,
        vendor_name: None,
        version: None,
        description: None,
        integrated: false,
    }
}

fn envelope_for(name: &str) -> SuitManifest {
    manifest(vec![component(&[name, "rootfs.img"])])
}

fn envelope_for_two(first: &str, second: &str) -> SuitManifest {
    manifest(vec![component(&[first, "kernel"]), component(&[second, "rootfs.img"])])
}

#[test]
fn for_well_known_vm_slots() {
    assert_eq!(BankSetSpec::for_well_known(BankSet::Vm1).dir_name, "vm1");
    assert_eq!(BankSetSpec::for_well_known(BankSet::Vm2).dir_name, "vm2");
}

#[test]
fn for_well_known_os_hsm_dir_names() {
    assert_eq!(BankSetSpec::for_well_known(BankSet::Os).dir_name, "os");
    assert_eq!(BankSetSpec::for_well_known(BankSet::Hsm).dir_name, "hsm");
}

#[test]
fn for_well_known_rt_dir_name() {
    assert_eq!(BankSetSpec::for_well_known(BankSet::Rt).dir_name, "rt");
}

#[test]
fn unknown_slot_falls_back_to_custom() {
    assert_eq!(BankSetSpec::for_well_known(BankSet::Custom(99)).dir_name, "custom");
}

#[test]
fn payload_name_from_component_id_not_uri() {
    let kernel = [b"vm1".to_vec(), b"kernel".to_vec()];
    let rootfs = [b"vm1".to_vec(), b"rootfs.img".to_vec()];
    let config = [b"vm1".to_vec(), b"vm-config.yaml".to_vec()];
    let qvm = [b"vm1".to_vec(), b"qvm.conf".to_vec()];
    let rt = [b"rt".to_vec(), b"rt-firmware.s19".to_vec()];
    assert_eq!(payload_target_name_for_id(Some(kernel.as_slice())), "kernel");
    assert_eq!(payload_target_name_for_id(Some(rootfs.as_slice())), "rootfs.img");
    assert_eq!(payload_target_name_for_id(Some(config.as_slice())), "vm-config.yaml");
    assert_eq!(payload_target_name_for_id(Some(qvm.as_slice())), "qvm.conf");
    assert_eq!(payload_target_name_for_id(Some(rt.as_slice())), "rt-firmware.s19");
    assert_eq!(payload_target_name_for_id(None), "firmware");
}

#[test]
fn payload_name_of_bad_bytes_is_lossy() {
    let odd = [b"vm1".to_vec(), vec![b'k', 0xff, b'l']];
    assert_eq!(payload_target_name_for_id(Some(odd.as_slice())), "k\u{fffd}l");
    let none: [Vec<u8>; 0] = [];
    assert_eq!(payload_target_name_for_id(Some(none.as_slice())), "firmware");
}

#[test]
fn peek_rejects_garbage() {
    let err = peek_target_component(Err("not a SUIT envelope".into())).unwrap_err();
    match err {
        ManifestError::ParseError(_) => {}
        other => panic!("expected ParseError, got {other:?}"),
    }
}

#[test]
fn check_target_propagates_parse_error_as_manifest_invalid() {
    let err = check_target(Err("garbage".into()), "vm1").unwrap_err();
    match err {
        MachineError::ManifestInvalid(msg) => {
            assert!(msg.contains("peek failed"), "msg={msg}");
        }
        other => panic!("expected ManifestInvalid, got {other:?}"),
    }
}

#[test]
fn peek_returns_the_component_name_verbatim() {
    assert_eq!(peek_target_component(Ok(envelope_for("vm1"))).unwrap(), "vm1");
    assert_eq!(
        peek_target_component(Ok(envelope_for("co-processor"))).unwrap(),
        "co-processor"
    );
}

#[test]
fn check_target_compares_names() {
    check_target(Ok(envelope_for("co-processor")), "co-processor").expect("same name");
    let err = check_target(Ok(envelope_for("co-processor")), "vm1").unwrap_err();
    match err {
        MachineError::WrongTarget(msg) => {
            assert_eq!(msg, "manifest target 'co-processor' != expected 'vm1'");
        }
        other => panic!("expected WrongTarget, got {other:?}"),
    }
}

#[test]
fn multi_component_entries_must_agree() {
    assert_eq!(
        peek_target_component(Ok(envelope_for_two("vm1", "vm1"))).unwrap(),
        "vm1"
    );
    let err = peek_target_component(Ok(envelope_for_two("vm1", "vm2"))).unwrap_err();
    match err {
        ManifestError::ComponentUnknown(msg) => {
            assert!(msg.contains("vm1") && msg.contains("vm2"), "msg={msg}");
        }
        other => panic!("expected ComponentUnknown, got {other:?}"),
    }
}

#[test]
fn a_manifest_without_a_usable_name_has_no_target() {
    assert!(target_component(&manifest(vec![])).is_err());
    let nameless = SuitComponent { id: None, digest: None, uri: None };
    assert!(target_component(&manifest(vec![nameless])).is_err());
}

#[test]
fn start_install_requires_vm_flash_authorization() {
    let mut router = AppInstallRouterComponent::new("vm2".into());
    let err = router.start_install(Err(MachineError::PolicyRejected("locked".into()))).unwrap_err();
    assert!(matches!(err, MachineError::PolicyRejected(ref s) if s == "locked"), "{err:?}");
    let session = router.start_install(Ok(())).unwrap();
    assert_eq!(session.id, "vm2-install");
    assert_eq!(session.max_chunk_size, 16 * 1024 * 1024);
    assert_eq!(MAX_CHUNK_SIZE, 16 * 1024 * 1024);
}

#[test]
fn container_route_rejects_manifest_that_provider_does_not_validate() {
    let router = AppInstallRouterComponent::new("vm2".into());
    let image = Some(manifest(vec![component(&["vm2", "container_image"])]));
    let no = ManifestError::SignatureInvalid("untrusted".into());
    let err = router.select_component(&image, Err(no)).unwrap_err();
    match err {
        MachineError::ManifestInvalid(msg) => {
            assert_eq!(msg, "container_image validation: signature invalid: untrusted");
        }
        other => panic!("expected ManifestInvalid, got {other:?}"),
    }
    assert!(router.active_install.is_none());
}

#[test]
fn only_the_first_component_of_this_machine_makes_an_image() {
    let image = Some(manifest(vec![component(&["vm2", "container_image", "v1"])]));
    assert!(is_container_image_manifest_for_vm(&image, "vm2"));
    assert!(!is_container_image_manifest_for_vm(&image, "vm1"));
    let plain = Some(envelope_for("vm2"));
    assert!(!is_container_image_manifest_for_vm(&plain, "vm2"));
    assert!(!is_container_image_manifest_for_vm(&None, "vm2"));
    let short = Some(manifest(vec![component(&["vm2"])]));
    assert!(!is_container_image_manifest_for_vm(&short, "vm2"));
}

#[test]
fn an_install_goes_one_way_once_it_was_chosen() {
    let mut router = AppInstallRouterComponent::new("vm2".into());
    let err = router.active_component().unwrap_err();
    assert!(
        matches!(err, MachineError::UnknownFlashSession(ref s) if s == "no active app install route")
    );

    let mut data = Vec::new();
    collect_first_upload(&mut data, Ok(vec![1, 2])).unwrap();
    collect_first_upload(&mut data, Ok(vec![3])).unwrap();
    assert_eq!(data, vec![1, 2, 3]);
    let err = collect_first_upload(&mut data, Err("cut off".into())).unwrap_err();
    assert!(matches!(err, MachineError::Internal(ref s) if s == "install route read: cut off"));

    let image = Some(manifest(vec![component(&["vm2", "container_image"])]));
    let target = router.select_component(&image, Ok(())).unwrap();
    assert_eq!(target, InstallTarget::ContainerImage);
    assert!(router.selected(target, Err(MachineError::Busy("no".into()))).is_err());
    assert!(router.active_install.is_none());
    router.selected(target, Ok("f1".into())).unwrap();
    let a = router.active_component().unwrap();
    assert_eq!(a.target, InstallTarget::ContainerImage);
    assert_eq!(a.id, "f1");

    let other = router.select_component(&None, Err(ManifestError::DigestMismatch)).unwrap();
    assert_eq!(other, InstallTarget::Vm);
    router.start_install(Ok(())).unwrap();
    assert!(router.active_install.is_none());
}
