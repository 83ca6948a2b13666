use component_mgr::banks::BankSet;
use component_mgr::firmware::ImageMeta;
use component_mgr::manifest_provider::{
    ManifestError, ManifestProvider, ManifestType, ValidatedFirmware,
};

#[test]
fn manifest_error_display_parse_error() {
    let e = ManifestError::ParseError("bad cbor".into());
    assert_eq!(e.to_text(), "manifest parse error: bad cbor");
}

#[test]
fn manifest_error_display_signature_invalid() {
    let e = ManifestError::SignatureInvalid("bad sig".into());
    assert_eq!(e.to_text(), "signature invalid: bad sig");
}

#[test]
fn manifest_error_display_rollback_rejected() {
    let e = ManifestError::RollbackRejected { seq: 3, min: 5, signing_time_secs: None };
    assert_eq!(e.to_text(), "rollback rejected: sequence 3 < minimum 5");
}

#[test]
fn manifest_error_display_digest_mismatch() {
    let e = ManifestError::DigestMismatch;
    assert_eq!(e.to_text(), "image digest mismatch");
}

#[test]
fn manifest_error_display_size_mismatch() {
    let e = ManifestError::SizeMismatch { expected: 100, actual: 50 };
    assert_eq!(e.to_text(), "image size mismatch: expected 100, got 50");
}

#[test]
fn manifest_error_display_component_unknown() {
    let e = ManifestError::ComponentUnknown("os99".into());
    assert_eq!(e.to_text(), "unknown component: os99");
}

#[test]
fn manifest_type_equality_and_copy() {
    let a = ManifestType::Firmware;
    let b = a;
    assert_eq!(a, b);
    assert_ne!(ManifestType::Firmware, ManifestType::HsmKeys);
}

struct StubProvider;

impl ManifestProvider for StubProvider {
    type KeyUnwrap = ();

    fn validate(&self, _data: &[u8], _min: u32) -> Result<ValidatedFirmware, ManifestError> {
        Ok(ValidatedFirmware {
            bank_set: BankSet::Vm1,
            manifest_type: ManifestType::Firmware,
            image_meta: ImageMeta::default(),
            image_data: Vec::new(),
            version_display: "1.0.0".into(),
            image_sha256: None,
            image_size: None,
            raw_envelope: None,
            streamed_files: Vec::new(),
            signing_time_secs: None,
            disable_target: None,
        })
    }
}

#[test]
fn validate_header_only_default_delegates_to_validate() {
    let p = StubProvider;
    let vf = p.validate_header_only(&[], 0).unwrap();
    assert_eq!(vf.bank_set, BankSet::Vm1);
    assert_eq!(vf.version_display, "1.0.0");
}

#[test]
fn key_accessors_default_to_none() {
    let p = StubProvider;
    assert!(p.software_authority_key().is_none());
    assert!(p.key_unwrap_for_decryption().is_none());
}

#[test]
fn update_keys_default_is_noop() {
    let p = StubProvider;
    p.update_keys(vec![1, 2, 3], None, None);
}
