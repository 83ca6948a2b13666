use component_mgr::bank_seed::{
    copy_forward_file, CopyForwardError, SeedAction, SeedError, SeedEvent, SeedOutcome, SeedPass,
    SourceEntry, Streamed,
};
use component_mgr::hashing::FileHash;
use sha2::{Digest, Sha256};
use std::collections::BTreeMap;

#[derive(Clone, Debug, PartialEq)]
enum Node {
    File(Vec<u8>),
    Link(String),
    Pipe,
}

type Dir = BTreeMap<String, Node>;

fn file(contents: &[u8]) -> Node {
    Node::File(contents.to_vec())
}

fn dir(entries: &[(&str, Node)]) -> Dir {
    entries.iter().map(|(n, e)| (n.to_string(), e.clone())).collect()
}

fn names(v: &[&str]) -> Vec<String> {
    v.iter().map(|s| s.to_string()).collect()
}

/// Completes a bank in memory.
fn seed(
    source: Option<&Dir>,
    target: &mut Option<Dir>,
    required: &[&str],
) -> Result<SeedOutcome, SeedError> {
    let mut pass = SeedPass::new("source".into(), "target".into(), names(required));
    let mut event = SeedEvent::Started;
    loop {
        let action = pass.seed_missing_files(event);
        event = match action {
            SeedAction::LookForTarget => SeedEvent::TargetThere(target.is_some()),
            SeedAction::LookInTarget(n) => {
                SeedEvent::TargetHas(target.as_ref().unwrap().contains_key(&n))
            }
            SeedAction::LookInSource(n) => {
                SeedEvent::SourceIs(match source.and_then(|s| s.get(&n)) {
                    Some(Node::File(_)) => SourceEntry::File,
                    Some(Node::Link(_)) => SourceEntry::Link,
                    Some(Node::Pipe) => SourceEntry::Odd,
                    None => SourceEntry::Absent,
                })
            }
            SeedAction::CopyFile(n) | SeedAction::CopyLink(n) => {
                let node = source.unwrap()[&n].clone();
                target.as_mut().unwrap().insert(n, node);
                SeedEvent::Copied(Ok(()))
            }
            SeedAction::ListSource => SeedEvent::Listed(match source {
                Some(s) => {
                    let mut tops: Vec<String> =
                        s.keys().map(|k| k.split('/').next().unwrap().to_string()).collect();
                    tops.dedup();
                    tops
                }
                None => Vec::new(),
            }),
            SeedAction::Done(o) => return Ok(o),
            SeedAction::Failed(e) => return Err(e),
        };
    }
}

#[test]
fn nothing_required_is_noop() {
    let source = dir(&[("kernel", file(b"old kernel"))]);
    let outcome = seed(Some(&source), &mut None, &[]).unwrap();
    assert!(outcome.copied.is_empty());
    assert!(outcome.foreign.is_empty());
}

#[test]
fn cross_channel_flash_copies_nothing_from_the_active_bank() {
    let source = dir(&[
        ("kernel", file(b"cicd kernel")),
        ("rootfs.img", file(b"cicd rootfs")),
        ("rt-link", file(b"cicd-only image")),
        ("diagnostics", file(b"cicd-only image")),
    ]);
    let mut target = Some(dir(&[
        ("kernel", file(b"skan8f kernel")),
        ("rootfs.img", file(b"skan8f rootfs")),
    ]));
    let outcome = seed(Some(&source), &mut target, &["kernel", "rootfs.img"]).unwrap();
    assert!(outcome.copied.is_empty(), "a full ship seeds nothing");
    let target = target.unwrap();
    assert!(!target.contains_key("rt-link") && !target.contains_key("diagnostics"));
    assert_eq!(target["kernel"], file(b"skan8f kernel"));
    let mut foreign = outcome.foreign.clone();
    foreign.sort();
    assert_eq!(foreign, vec!["diagnostics".to_string(), "rt-link".into()]);
}

#[test]
fn declared_part_the_stream_did_not_ship_is_reused_from_active() {
    let source =
        dir(&[("kernel", file(b"old kernel")), ("vm-config.yaml", file(b"old: config"))]);
    let mut target = Some(dir(&[("kernel", file(b"new kernel"))]));
    let outcome = seed(Some(&source), &mut target, &["kernel", "vm-config.yaml"]).unwrap();
    assert_eq!(outcome.copied, vec!["vm-config.yaml".to_string()]);
    let target = target.unwrap();
    assert_eq!(target["kernel"], file(b"new kernel"));
    assert_eq!(target["vm-config.yaml"], file(b"old: config"));
}

#[test]
fn declared_part_missing_everywhere_errors_naming_it() {
    let source = dir(&[("kernel", file(b"old kernel"))]);
    let mut target = Some(dir(&[]));
    let err = seed(Some(&source), &mut target, &["kernel", "rootfs.img"]).unwrap_err();
    match err {
        SeedError::NotFound(why) => assert_eq!(
            why,
            "required file \"rootfs.img\" is in neither the target bank (target) nor the active \
             bank (source) — the bank cannot be completed"
        ),
        other => panic!("{other:?}"),
    }
}

#[test]
fn foreign_files_stay_put_even_when_a_reuse_happens() {
    let source = dir(&[("kernel", file(b"old kernel")), ("rt-link", file(b"cicd-only image"))]);
    let mut target = Some(dir(&[("rootfs.img", file(b"new rootfs"))]));
    let outcome = seed(Some(&source), &mut target, &["kernel", "rootfs.img"]).unwrap();
    assert_eq!(outcome.copied, vec!["kernel".to_string()]);
    let target = target.unwrap();
    assert_eq!(target["kernel"], file(b"old kernel"));
    assert!(!target.contains_key("rt-link"));
    assert_eq!(outcome.foreign, vec!["rt-link".to_string()]);
}

#[test]
fn missing_target_dir_errors_when_parts_are_required() {
    let source = dir(&[("kernel", file(b"old kernel"))]);
    let err = seed(Some(&source), &mut None, &["kernel"]).unwrap_err();
    assert!(
        matches!(err, SeedError::NotFound(ref w) if w == "target dir does not exist: target"),
        "{err:?}"
    );
}

#[test]
fn factory_first_flash_has_no_active_bank_to_reuse_from() {
    let mut target = Some(dir(&[("policy.sqfs", file(b"new"))]));
    let outcome = seed(None, &mut target, &["policy.sqfs"]).unwrap();
    assert!(outcome.copied.is_empty());
    assert!(outcome.foreign.is_empty());
}

#[test]
fn required_subpath_creates_its_parent_dirs() {
    let source = dir(&[
        ("policy/policy.yaml", file(b"version: 1")),
        ("policy/roots/sumo-sign.pem", file(b"pem")),
    ]);
    let mut target = Some(dir(&[]));
    let outcome = seed(
        Some(&source),
        &mut target,
        &["policy/policy.yaml", "policy/roots/sumo-sign.pem"],
    )
    .unwrap();
    assert_eq!(outcome.copied.len(), 2);
    let target = target.unwrap();
    assert_eq!(target["policy/policy.yaml"], file(b"version: 1"));
    assert_eq!(target["policy/roots/sumo-sign.pem"], file(b"pem"));
    assert!(outcome.foreign.is_empty());
}

#[test]
fn required_symlink_recreated_in_target() {
    let source = dir(&[
        ("target.bin", file(b"linkdest")),
        ("link", Node::Link("target.bin".into())),
    ]);
    let mut target = Some(dir(&[]));
    let outcome = seed(Some(&source), &mut target, &["link"]).unwrap();
    assert_eq!(outcome.copied, vec!["link".to_string()]);
    assert_eq!(target.unwrap()["link"], Node::Link("target.bin".into()));
}

#[test]
fn existing_target_symlink_preserved() {
    let source = dir(&[("link", Node::Link("old".into()))]);
    let mut target = Some(dir(&[("link", Node::Link("new".into()))]));
    seed(Some(&source), &mut target, &["link"]).unwrap();
    assert_eq!(target.unwrap()["link"], Node::Link("new".into()));
}

#[test]
fn what_is_no_file_cannot_be_reused() {
    let source = dir(&[("pipe", Node::Pipe)]);
    let mut target = Some(dir(&[]));
    let err = seed(Some(&source), &mut target, &["pipe"]).unwrap_err();
    match err {
        SeedError::InvalidData(why) => assert_eq!(
            why,
            "required file \"pipe\" in the active bank (source) is neither a file nor a symlink"
        ),
        other => panic!("{other:?}"),
    }
}

#[test]
fn what_is_missing_is_copied_in_the_declared_order() {
    let source = dir(&[("a", file(b"1")), ("b", file(b"2")), ("c", file(b"3"))]);
    let mut target = Some(dir(&[("b", file(b"new"))]));
    let outcome = seed(Some(&source), &mut target, &["c", "b", "a", "c"]).unwrap();
    assert_eq!(outcome.copied, names(&["c", "a"]));

    let mut pass = SeedPass::new("source".into(), "target".into(), names(&["c", "b", "a"]));
    let mut event = SeedEvent::Started;
    loop {
        event = match pass.seed_missing_files(event) {
            SeedAction::LookForTarget => SeedEvent::TargetThere(true),
            SeedAction::LookInTarget(_) => SeedEvent::TargetHas(true),
            SeedAction::ListSource => SeedEvent::Listed(Vec::new()),
            SeedAction::Done(o) => {
                assert!(o.copied.is_empty());
                return;
            }
            other => panic!("the bank is complete, but {other:?}"),
        };
    }
}

#[test]
fn the_files_of_the_seal_are_never_foreign() {
    let source = dir(&[
        ("ivd-manifest.cbor", file(b"m")),
        ("ivd-signature.bin", file(b"s")),
        ("kernel", file(b"k")),
    ]);
    let mut target = Some(dir(&[("kernel", file(b"k"))]));
    let outcome = seed(Some(&source), &mut target, &["kernel"]).unwrap();
    assert!(outcome.foreign.is_empty());
}

#[test]
fn reading_or_copying_may_fail() {
    let mut pass = SeedPass::new("source".into(), "target".into(), names(&["kernel"]));
    pass.seed_missing_files(SeedEvent::Started);
    pass.seed_missing_files(SeedEvent::TargetThere(true));
    pass.seed_missing_files(SeedEvent::TargetHas(false));
    let mut other = pass.clone();
    let a = pass.seed_missing_files(SeedEvent::SourceIs(SourceEntry::Unreadable("busy".into())));
    assert!(matches!(a, SeedAction::Failed(SeedError::Other(ref w)) if w == "busy"));
    other.seed_missing_files(SeedEvent::SourceIs(SourceEntry::File));
    let a = other.seed_missing_files(SeedEvent::Copied(Err("no space".into())));
    assert!(matches!(a, SeedAction::Failed(SeedError::Other(ref w)) if w == "no space"));
}

fn sha256(bytes: &[u8]) -> [u8; 32] {
    Sha256::digest(bytes).into()
}

fn streamed(bytes: &[u8]) -> Streamed {
    Streamed::Whole(FileHash::new().take(&bytes[..4]).take(&bytes[4..]))
}

#[test]
fn copy_forward_file_copies_on_digest_match() {
    let content = b"the vehicle already has this rootfs";
    let expected = sha256(content);
    let (hash, size) =
        copy_forward_file("rootfs.img", &expected.to_vec(), streamed(content)).unwrap();
    assert_eq!(hash, expected);
    assert_eq!(size, content.len() as u64);
}

#[test]
fn copy_forward_file_rejects_digest_mismatch_and_removes_partial() {
    let manifest_digest = sha256(b"the version the manifest expects");
    let err = copy_forward_file(
        "rootfs.img",
        &manifest_digest.to_vec(),
        streamed(b"STALE active content"),
    )
    .unwrap_err();
    match &err {
        CopyForwardError::DigestMismatch { name, expected, actual } => {
            assert_eq!(name, "rootfs.img");
            assert_eq!(expected, &manifest_digest.to_vec());
            assert_eq!(actual, &sha256(b"STALE active content"));
        }
        other => panic!("expected DigestMismatch, got {other:?}"),
    }
    assert!(err.to_text().contains(&hex::encode(manifest_digest)), "{}", err.to_text());
}

#[test]
fn copy_forward_file_missing_active_errors() {
    let err = copy_forward_file(
        "kernel",
        &sha256(b"x").to_vec(),
        Streamed::Missing("bank_a/kernel".into()),
    )
    .unwrap_err();
    assert!(matches!(err, CopyForwardError::MissingActive(_)), "got {err:?}");
    let err = copy_forward_file(
        "kernel",
        &sha256(b"x").to_vec(),
        Streamed::Broken("disk full".into(), "bank_b/kernel".into()),
    )
    .unwrap_err();
    assert_eq!(err.to_text(), "copy-forward io bank_b/kernel: disk full");
}
