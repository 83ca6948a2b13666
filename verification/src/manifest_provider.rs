//! Validated manifests, and why a manifest is refused.

use crate::banks::BankSet;
use crate::firmware::{ImageMeta, IvdFile};
use crate::text::{cat2, cat4, decimal, decimal_text};
use vstd::prelude::*;

verus! {

/// What kind of payload a manifest carries.
#[derive(Debug, Clone, Copy, PartialEq, Eq, Structural)]
pub enum ManifestType {
    /// A firmware image, written to a bank.
    Firmware,
    /// Key material for the security module.
    HsmKeys,
}

/// A manifest that was found good, and what it carries.
#[derive(Debug, Clone)]
pub struct ValidatedFirmware {
    pub bank_set: BankSet,
    pub manifest_type: ManifestType,
    pub image_meta: ImageMeta,
    pub image_data: Vec<u8>,
    pub version_display: String,
    /// The digest of an image that was written to its bank while it came in.
    pub image_sha256: Option<[u8; 32]>,
    pub image_size: Option<u64>,
    /// The whole envelope, kept for key material.
    pub raw_envelope: Option<Vec<u8>>,
    pub streamed_files: Vec<IvdFile>,
    /// When the manifest was signed, in seconds since the start of 1970: a lower
    /// bound on the present time.
    pub signing_time_secs: Option<u64>,
    /// The component that a manifest without payload disables.
    pub disable_target: Option<usize>,
}

/// Why a manifest is refused.
#[derive(Debug, Clone)]
pub enum ManifestError {
    ParseError(String),
    SignatureInvalid(String),
    /// The signature is good but the manifest is too old. What it says of the
    /// time can be trusted all the same.
    RollbackRejected { seq: u64, min: u64, signing_time_secs: Option<u64> },
    DigestMismatch,
    SizeMismatch { expected: u64, actual: u64 },
    ComponentUnknown(String),
}

impl ManifestError {
    /// The refusal in words.
    pub open spec fn message(self) -> Seq<char> {
        match self {
            ManifestError::ParseError(e) => "manifest parse error: "@ + e@,
            ManifestError::SignatureInvalid(e) => "signature invalid: "@ + e@,
            ManifestError::RollbackRejected { seq, min, .. } => "rollback rejected: sequence "@
                + decimal_text(seq as nat) + " < minimum "@ + decimal_text(min as nat),
            ManifestError::DigestMismatch => "image digest mismatch"@,
            ManifestError::SizeMismatch { expected, actual } =>
            "image size mismatch: expected "@ + decimal_text(expected as nat) + ", got "@
                + decimal_text(actual as nat),
            ManifestError::ComponentUnknown(c) => "unknown component: "@ + c@,
        }
    }

    /// The refusal in words.
    pub fn to_text(&self) -> (r: String)
        ensures
            r@ == self.message(),
    {
        match self {
            ManifestError::ParseError(e) => cat2("manifest parse error: ", e.as_str()),
            ManifestError::SignatureInvalid(e) => cat2("signature invalid: ", e.as_str()),
            ManifestError::RollbackRejected { seq, min, .. } => {
                let s = decimal(*seq);
                let m = decimal(*min);
                cat4("rollback rejected: sequence ", s.as_str(), " < minimum ", m.as_str())
            },
            ManifestError::DigestMismatch => "image digest mismatch".to_owned(),
            ManifestError::SizeMismatch { expected, actual } => {
                let e = decimal(*expected);
                let a = decimal(*actual);
                cat4("image size mismatch: expected ", e.as_str(), ", got ", a.as_str())
            },
            ManifestError::ComponentUnknown(c) => cat2("unknown component: ", c.as_str()),
        }
    }
}

/// Something that judges manifests.
pub trait ManifestProvider {
    /// A key with which payloads are decrypted.
    type KeyUnwrap;

    /// Judges a manifest with its payload.
    fn validate(&self, data: &[u8], min_security_ver: u32) -> (r: Result<
        ValidatedFirmware,
        ManifestError,
    >);

    /// Judges a manifest without its payload.
    fn validate_header_only(&self, data: &[u8], min_security_ver: u32) -> (r: Result<
        ValidatedFirmware,
        ManifestError,
    >)
        default_ensures
            call_ensures(Self::validate, (self, data, min_security_ver), r),
    {
        self.validate(data, min_security_ver)
    }

    /// The key of the authority that signs software, where there is one.
    fn software_authority_key(&self) -> (r: Option<Vec<u8>>)
        default_ensures
            r is None,
    {
        None
    }

    /// The key with which payloads are decrypted, where there is one.
    fn key_unwrap_for_decryption(&self) -> (r: Option<Self::KeyUnwrap>)
        default_ensures
            r is None,
    {
        None
    }

    /// Takes new keys.
    fn update_keys(
        &self,
        sw_authority: Vec<u8>,
        key_unwrap: Option<Self::KeyUnwrap>,
        key_authority: Option<Vec<u8>>,
    ) {
    }
}

/// A manifest that is too old is refused with its own number first and the lowest that
/// is accepted behind it; a payload of the wrong size with the size that was promised
/// first and the one that came behind it; and whatever else is refused is refused with
/// its cause at the end.
pub proof fn law_refusals_name_their_cause(e: ManifestError)
    ensures
        e matches ManifestError::RollbackRejected { seq, min, signing_time_secs } ==> e.message()
            == "rollback rejected: sequence "@ + decimal_text(seq as nat) + " < minimum "@
            + decimal_text(min as nat),
        e matches ManifestError::SizeMismatch { expected, actual } ==> e.message()
            == "image size mismatch: expected "@ + decimal_text(expected as nat) + ", got "@
            + decimal_text(actual as nat),
        e matches ManifestError::ParseError(why) ==> why@.is_suffix_of(e.message()),
        e matches ManifestError::SignatureInvalid(why) ==> why@.is_suffix_of(e.message()),
        e matches ManifestError::ComponentUnknown(why) ==> why@.is_suffix_of(e.message()),
{
    match e {
        ManifestError::ParseError(why) => {
            let m = e.message();
            assert(m.subrange(m.len() - why@.len(), m.len() as int) =~= why@);
        },
        ManifestError::SignatureInvalid(why) => {
            let m = e.message();
            assert(m.subrange(m.len() - why@.len(), m.len() as int) =~= why@);
        },
        ManifestError::ComponentUnknown(why) => {
            let m = e.message();
            assert(m.subrange(m.len() - why@.len(), m.len() as int) =~= why@);
        },
        _ => {},
    }
}

} // verus!
