use component_mgr::backend::guest::GuestHealth;
use component_mgr::lifecycle::{
    insert_admin_disabled_fields, parse_expected, Convergence, ExpectedState, GuestLifecycle, RuntimeStatus,
    ADMIN_DISABLED_REASON,
};
use serde_json::{Map as JsonMap, Value};

fn json(s: &str) -> Value {
    serde_json::from_str(s).unwrap()
}

fn health(status: &str) -> Value {
    json(&format!("{{\"status\": \"{status}\"}}"))
}

#[test]
fn a_full_running_body_parses_every_field() {
    let lc = GuestLifecycle::from_json(&json(
        r#"{"status": "running", "guest_state": 1, "hb_seq": 1234, "boot_id": 42,
            "for_ms": 9000, "since_unix_secs": 1757000000, "reason": null}"#,
    ))
    .unwrap();
    assert!(lc.is_up());
    assert!(!lc.is_down());
    assert_eq!(lc.for_ms, Some(9000));
    assert_eq!(lc.since_unix_secs, Some(1_757_000_000));
    assert_eq!(lc.reason, None);
    assert_eq!(lc.runtime_status(), RuntimeStatus::Running);
}

#[test]
fn an_older_vm_service_body_still_parses() {
    let lc = GuestLifecycle::from_json(&json(
        r#"{"status": "running", "guest_state": 1, "hb_seq": 7, "boot_id": 3}"#,
    ))
    .unwrap();
    assert!(lc.is_up());
    assert_eq!(lc.for_ms, None);
    assert_eq!(lc.since_unix_secs, None);
}

#[test]
fn a_status_only_body_parses_and_the_missing_evidence_is_absent() {
    let lc = GuestLifecycle::from_json(&health("starting")).unwrap();
    assert_eq!(lc.runtime_status(), RuntimeStatus::Booting);
    assert!(!lc.is_up(), "starting is not up");
    assert!(!lc.is_down(), "starting is not down either");
    assert_eq!(lc.hb_seq, None);

    let mut runtime = JsonMap::new();
    lc.insert_runtime_fields(&mut runtime);
    assert_eq!(runtime.get("lifecycle_status").unwrap(), "starting");
    assert!(!runtime.contains_key("hb_seq"));
}

#[test]
fn a_body_without_status_is_an_error() {
    assert!(GuestLifecycle::from_json(&json(r#"{"hb_seq": 1}"#)).is_err());
}

#[test]
fn failed_is_down_terminal_and_faulted() {
    let lc = GuestLifecycle::from_json(&json(
        r#"{"status": "failed", "reason": "pre-launch verify failed: bad signature",
            "for_ms": 1500}"#,
    ))
    .unwrap();
    assert!(lc.is_down());
    assert!(lc.is_failed());
    assert!(!lc.is_up());
    assert_eq!(lc.runtime_status(), RuntimeStatus::Faulted);

    let mut runtime = JsonMap::new();
    lc.insert_runtime_fields(&mut runtime);
    assert_eq!(
        runtime.get("lifecycle_reason").unwrap(),
        "pre-launch verify failed: bad signature"
    );
}

#[test]
fn stopped_is_down_but_not_a_fault() {
    let lc = GuestLifecycle::from_json(&health("stopped")).unwrap();
    assert!(lc.is_down());
    assert!(!lc.is_failed());
    assert_eq!(lc.runtime_status(), RuntimeStatus::Stopped);
}

#[test]
fn shutting_down_is_neither_up_nor_down() {
    let lc = GuestLifecycle::from_json(&health("shutting_down")).unwrap();
    assert!(!lc.is_up());
    assert!(!lc.is_down());
    assert!(!lc.is_failed());
    assert_eq!(lc.runtime_status(), RuntimeStatus::ShuttingDown);
}

#[test]
fn unhealthy_is_running_but_faulted() {
    let lc = GuestLifecycle::from_json(&health("unhealthy")).unwrap();
    assert!(!lc.is_down(), "the process is still up");
    assert!(!lc.is_up());
    assert_eq!(lc.runtime_status(), RuntimeStatus::Faulted);
}

#[test]
fn an_unrecognised_status_maps_to_unknown_and_never_errors() {
    let lc = GuestLifecycle::from_json(&health("hibernating")).unwrap();
    assert_eq!(lc.runtime_status(), RuntimeStatus::Unknown);
    assert!(!lc.is_down());
}

#[test]
fn running_without_a_healthy_guest_state_is_not_up() {
    let lc = GuestLifecycle::from_json(&json(
        r#"{"status": "running", "guest_state": 2, "hb_seq": 5, "boot_id": 1}"#,
    ))
    .unwrap();
    assert!(!lc.is_up(), "both halves must agree");
}

fn probe() -> GuestHealth {
    GuestHealth { guest_state: 1, hb_seq: 11, boot_id: 22, status: "running".into() }
}

#[test]
fn a_probe_snapshot_carries_no_lifecycle_clock() {
    let lc = GuestLifecycle::from_probe(&probe());
    assert!(lc.is_up());
    assert_eq!(lc.for_ms, None);
    assert_eq!(lc.runtime_status(), RuntimeStatus::Running);
}

/// The verdict, from the published body alone.
fn recompute(runtime: &JsonMap<String, Value>) -> Option<Convergence> {
    let expected = runtime.get("lifecycle_expected")?.as_str()?;
    let status = runtime.get("lifecycle_status")?.as_str()?;
    let up = status == "running" && runtime.get("guest_state").and_then(Value::as_u64) == Some(1);
    match expected {
        "running" if up => Some(Convergence::Converged),
        "running" => match status {
            "stopped" | "failed" => Some(Convergence::Diverged),
            "starting" | "shutting_down" | "unhealthy" | "running" => {
                Some(Convergence::Transitioning)
            }
            _ => None,
        },
        "stopped" => match status {
            "stopped" | "failed" => Some(Convergence::Converged),
            "starting" | "shutting_down" => Some(Convergence::Transitioning),
            "running" | "unhealthy" | "unknown" => Some(Convergence::Diverged),
            _ => None,
        },
        _ => None,
    }
}

#[test]
fn convergence_table_covers_every_status_under_both_intents() {
    let converged = Some(Convergence::Converged);
    let transitioning = Some(Convergence::Transitioning);
    let diverged = Some(Convergence::Diverged);
    let cases: Vec<(&str, &str, Option<u32>, Option<Convergence>)> = vec![
        ("running", "running", Some(1), converged),
        ("running", "running", Some(2), transitioning),
        ("running", "running", None, transitioning),
        ("running", "starting", None, transitioning),
        ("running", "unhealthy", None, transitioning),
        ("running", "shutting_down", None, transitioning),
        ("running", "stopped", None, diverged),
        ("running", "failed", None, diverged),
        ("running", "unknown", None, None),
        ("running", "hibernating", None, None),
        ("stopped", "stopped", None, converged),
        ("stopped", "failed", None, converged),
        ("stopped", "shutting_down", None, transitioning),
        ("stopped", "starting", None, transitioning),
        ("stopped", "running", Some(1), diverged),
        ("stopped", "unhealthy", None, diverged),
        ("stopped", "unknown", None, diverged),
        ("stopped", "hibernating", None, None),
    ];
    for (expected, status, guest_state, want) in cases {
        let mut body = json(&format!(
            "{{\"status\": \"{status}\", \"expected\": \"{expected}\"}}"
        ));
        if let Some(gs) = guest_state {
            body["guest_state"] = Value::from(gs);
        }
        let lc = GuestLifecycle::from_json(&body).unwrap();
        assert_eq!(
            lc.convergence(),
            want,
            "expected={expected} status={status} guest_state={guest_state:?}"
        );
        let mut runtime = JsonMap::new();
        lc.insert_runtime_fields(&mut runtime);
        assert_eq!(recompute(&runtime), want, "{runtime:?}");
    }
}

#[test]
fn convergence_is_absent_when_the_source_publishes_no_expectation() {
    for body in [
        json(r#"{"status": "stopped"}"#),
        json(r#"{"status": "stopped", "expected": null}"#),
        json(r#"{"status": "stopped", "expected": "quiesced"}"#),
    ] {
        let lc = GuestLifecycle::from_json(&body).unwrap();
        assert_eq!(lc.expected, None);
        assert_eq!(lc.convergence(), None, "{body}");
        let mut runtime = JsonMap::new();
        lc.insert_runtime_fields(&mut runtime);
        assert!(!runtime.contains_key("lifecycle_expected"));
        assert!(!runtime.contains_key("lifecycle_convergence"));
    }
}

#[test]
fn an_intent_body_publishes_its_provenance_and_its_own_clock() {
    let lc = GuestLifecycle::from_json(&json(
        r#"{"status": "stopped", "reason": "no active bank selected", "for_ms": 90000,
            "expected": "running", "expected_by": "autostart", "expected_for_ms": 30000}"#,
    ))
    .unwrap();
    assert_eq!(lc.convergence(), Some(Convergence::Diverged));
    let mut runtime = JsonMap::new();
    lc.insert_runtime_fields(&mut runtime);
    assert_eq!(runtime["lifecycle_convergence"], "diverged");
    assert_eq!(runtime["lifecycle_expected"], "running");
    assert_eq!(runtime["lifecycle_expected_by"], "autostart");
    assert_eq!(runtime["lifecycle_for_ms"], 90_000);
    assert_eq!(runtime["lifecycle_expected_for_ms"], 30_000);
    assert_eq!(lc.for_ms.unwrap().min(lc.expected_for_ms.unwrap()), 30_000);
}

#[test]
fn an_unobservable_guest_gets_no_readiness_verdict_but_a_stopped_intent_diverges() {
    let running =
        GuestLifecycle::from_json(&json(r#"{"status": "unknown", "expected": "running"}"#))
            .unwrap();
    assert_eq!(running.convergence(), None);
    let stopped =
        GuestLifecycle::from_json(&json(r#"{"status": "unknown", "expected": "stopped"}"#))
            .unwrap();
    assert_eq!(stopped.convergence(), Some(Convergence::Diverged));
}

#[test]
fn a_probe_snapshot_has_no_intent() {
    let lc = GuestLifecycle::from_probe(&probe());
    assert_eq!(lc.expected, None);
    assert_eq!(lc.convergence(), None);
}

#[test]
fn the_disabled_body_states_an_intent_and_claims_no_observation() {
    let mut runtime = JsonMap::new();
    insert_admin_disabled_fields(&mut runtime);
    assert_eq!(runtime["lifecycle_status"], "stopped");
    assert_eq!(runtime["lifecycle_reason"], ADMIN_DISABLED_REASON);
    assert_eq!(runtime["lifecycle_expected"], "stopped");
    assert_eq!(runtime["lifecycle_expected_by"], "admin_disable");
    assert!(!runtime.contains_key("lifecycle_convergence"));
    assert!(!runtime.contains_key("lifecycle_expected_for_ms"));
}

#[test]
fn runtime_state_detail_and_x_runtime_are_the_same_body() {
    let lc = GuestLifecycle::from_json(&json(r#"{"status": "starting", "for_ms": 4200}"#)).unwrap();
    let state = lc.runtime_state();
    assert_eq!(state.status, RuntimeStatus::Booting);
    let mut expected = JsonMap::new();
    lc.insert_runtime_fields(&mut expected);
    assert_eq!(state.detail, Value::Object(expected));
    assert_eq!(state.detail["lifecycle_for_ms"], 4200);
}

#[test]
fn the_words_of_intent_and_verdict() {
    assert_eq!(ExpectedState::Running.as_str(), "running");
    assert_eq!(ExpectedState::Stopped.as_str(), "stopped");
    assert_eq!(Convergence::Converged.as_str(), "converged");
    assert_eq!(Convergence::Transitioning.as_str(), "transitioning");
    assert_eq!(Convergence::Diverged.as_str(), "diverged");
}

#[test]
fn an_intent_survives_its_word() {
    for e in [ExpectedState::Running, ExpectedState::Stopped] {
        let v = json(&format!("{{\"expected\": \"{}\"}}", e.as_str()));
        assert_eq!(parse_expected(&v), Some(e));
    }
    for body in [r#"{}"#, r#"{"expected": null}"#, r#"{"expected": 1}"#, r#"{"expected": "quiesced"}"#]
    {
        assert_eq!(parse_expected(&json(body)), None, "{body}");
    }
}
