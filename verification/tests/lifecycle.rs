use candid::Nat;
use icpad::error::ServiceError;
use icpad::gateway::{GatewayReply, TransportError};
use icpad::lifecycle::{
    check_delivery, check_status, ExpiryTimer, LifecycleManager, SessionEvent, SessionState,
    NANOS_PER_SEC, SESSION_LIFETIME_SECS,
};

fn reply(status: u64, body: &str) -> Result<GatewayReply, TransportError> {
    Ok(GatewayReply { status: Nat::from(status), body: body.as_bytes().to_vec() })
}

fn unreachable_host(diagnostic: &str) -> Result<GatewayReply, TransportError> {
    Err(TransportError { diagnostic: diagnostic.to_string() })
}

const C1: &str = r#"{"container_id":"c1","editor_url":"https://e/c1"}"#;

#[test]
fn start_alice_registers_container_and_returns_editor_url() {
    let mut manager = LifecycleManager::new();
    let started = manager.finish_start("alice", reply(200, C1), 7).unwrap();
    assert_eq!(started.editor_url, "https://e/c1");
    assert_eq!(started.expiry.container_id(), "c1");
    assert_eq!(started.expiry.delay_secs(), SESSION_LIFETIME_SECS);
    let handle = manager.registry().get("alice").unwrap();
    assert_eq!(handle.container_id, "c1");
    assert_eq!(handle.editor_url, "https://e/c1");
    assert_eq!(handle.owner, "alice");
    assert_eq!(handle.created_at, 7);
    assert_eq!(manager.registry().len(), 1);
}

#[test]
fn start_bob_rejected_with_500_leaves_no_entry() {
    let mut manager = LifecycleManager::new();
    let failure = manager.finish_start("bob", reply(500, "oops"), 0).unwrap_err();
    assert_eq!(failure, ServiceError::ControllerRejected { status: Nat::from(500u64) });
    assert_eq!(failure.message(), "Non-200 status code: 500");
    assert!(!manager.registry().contains("bob"));
    assert!(manager.registry().is_empty());
}

#[test]
fn stop_c1_removes_the_owner_and_confirms() {
    let mut manager = LifecycleManager::new();
    manager.finish_start("alice", reply(200, C1), 1).unwrap();
    let confirmation = manager.finish_stop("c1", reply(200, "")).unwrap();
    assert_eq!(confirmation, "Container stopped successfully");
    assert!(!manager.registry().contains("alice"));
    assert!(manager.registry().is_empty());
}

#[test]
fn stop_unknown_container_succeeds_and_leaves_registry() {
    let mut manager = LifecycleManager::new();
    manager.finish_start("alice", reply(200, C1), 1).unwrap();
    let confirmation = manager.finish_stop("unknown-container", reply(200, "ignored")).unwrap();
    assert_eq!(confirmation, "Container stopped successfully");
    assert_eq!(manager.registry().len(), 1);
    assert_eq!(manager.registry().get("alice").unwrap().container_id, "c1");
}

#[test]
fn start_then_stop_leaves_no_entry_for_the_user() {
    let mut manager = LifecycleManager::new();
    let body = r#"{"container_id":"box-9","editor_url":"https://e/box-9"}"#;
    let started = manager.finish_start("carol", reply(200, body), 5).unwrap();
    assert!(manager.registry().contains("carol"));
    manager.finish_stop(started.expiry.container_id(), reply(200, "")).unwrap();
    assert!(!manager.registry().contains("carol"));
}

#[test]
fn stop_twice_gives_the_same_answer() {
    let mut manager = LifecycleManager::new();
    manager.finish_start("alice", reply(200, C1), 1).unwrap();
    manager.finish_start("dave", reply(200, r#"{"container_id":"c2","editor_url":"u2"}"#), 2).unwrap();
    let first = manager.finish_stop("c1", reply(200, ""));
    let second = manager.finish_stop("c1", reply(200, ""));
    assert_eq!(first, second);
    assert_eq!(second.unwrap(), "Container stopped successfully");
    assert_eq!(manager.registry().len(), 1);
    assert!(manager.registry().contains("dave"));
}

#[test]
fn failed_stop_keeps_the_session() {
    let mut manager = LifecycleManager::new();
    manager.finish_start("alice", reply(200, C1), 1).unwrap();
    let rejected = manager.finish_stop("c1", reply(503, "")).unwrap_err();
    assert_eq!(rejected, ServiceError::ControllerRejected { status: Nat::from(503u64) });
    assert!(manager.registry().contains("alice"));
    let lost = manager.finish_stop("c1", unreachable_host("timeout")).unwrap_err();
    assert_eq!(lost, ServiceError::GatewayUnreachable { diagnostic: "timeout".to_string() });
    assert_eq!(lost.message(), "HTTP call failed: timeout");
    assert!(manager.registry().contains("alice"));
}

#[test]
fn unreachable_gateway_fails_the_start() {
    let mut manager = LifecycleManager::new();
    let failure = manager.finish_start("erin", unreachable_host("no route"), 3).unwrap_err();
    assert_eq!(failure, ServiceError::GatewayUnreachable { diagnostic: "no route".to_string() });
    assert!(manager.registry().is_empty());
}

#[test]
fn start_without_container_id_is_malformed() {
    let mut manager = LifecycleManager::new();
    let failure =
        manager.finish_start("erin", reply(200, r#"{"editor_url":"https://e/c1"}"#), 3).unwrap_err();
    assert_eq!(
        failure,
        ServiceError::MalformedResponse { detail: "missing field `container_id`".to_string() }
    );
    assert_eq!(failure.message(), "JSON parse error: missing field `container_id`");
    assert!(manager.registry().is_empty());
}

#[test]
fn start_without_editor_url_is_malformed() {
    let mut manager = LifecycleManager::new();
    let failure =
        manager.finish_start("erin", reply(200, r#"{"container_id":"c1"}"#), 3).unwrap_err();
    assert_eq!(
        failure,
        ServiceError::MalformedResponse { detail: "missing field `editor_url`".to_string() }
    );
    assert!(manager.registry().is_empty());
}

#[test]
fn start_with_text_that_is_no_json_is_malformed() {
    let mut manager = LifecycleManager::new();
    let failure = manager.finish_start("erin", reply(200, "<html>"), 3).unwrap_err();
    assert!(matches!(failure, ServiceError::MalformedResponse { .. }));
    assert!(failure.message().starts_with("JSON parse error: "));
    assert!(manager.registry().is_empty());
}

#[test]
fn start_with_a_number_for_the_container_is_malformed() {
    let mut manager = LifecycleManager::new();
    let body = r#"{"container_id":17,"editor_url":"https://e/c1"}"#;
    let failure = manager.finish_start("erin", reply(200, body), 3).unwrap_err();
    assert_eq!(
        failure.message(),
        "JSON parse error: invalid type for field `container_id`, expected a string"
    );
    assert!(manager.registry().is_empty());
}

#[test]
fn start_with_an_array_is_malformed() {
    let mut manager = LifecycleManager::new();
    let failure = manager.finish_start("erin", reply(200, "[1, 2]"), 3).unwrap_err();
    assert!(matches!(failure, ServiceError::MalformedResponse { .. }));
}

#[test]
fn start_ignores_other_members_of_the_reply() {
    let mut manager = LifecycleManager::new();
    let body = r#"{"size": 8080, "container_id": "c7", "editor_url": "https://e/c7", "x": null}"#;
    let started = manager.finish_start("frank", reply(200, body), 3).unwrap();
    assert_eq!(started.editor_url, "https://e/c7");
    assert_eq!(manager.registry().get("frank").unwrap().container_id, "c7");
}

#[test]
fn status_is_judged_before_the_body() {
    let mut manager = LifecycleManager::new();
    let failure = manager.finish_start("gina", reply(201, C1), 3).unwrap_err();
    assert_eq!(failure, ServiceError::ControllerRejected { status: Nat::from(201u64) });
    assert!(manager.registry().is_empty());
}

#[test]
fn status_too_large_for_64_bits_is_a_rejection() {
    let huge: Nat = "36893488147419103232".parse().unwrap();
    let mut manager = LifecycleManager::new();
    let failure = manager
        .finish_start("gina", Ok(GatewayReply { status: huge.clone(), body: C1.as_bytes().to_vec() }), 3)
        .unwrap_err();
    assert_eq!(failure, ServiceError::ControllerRejected { status: huge });
    assert_eq!(failure.message(), "Non-200 status code: 36_893_488_147_419_103_232");
}

#[test]
fn body_that_is_not_utf8_is_malformed() {
    let mut manager = LifecycleManager::new();
    let body = vec![0xff, 0xfe, b'{', b'}'];
    let failure = manager
        .finish_start("gina", Ok(GatewayReply { status: Nat::from(200u64), body }), 3)
        .unwrap_err();
    assert!(matches!(failure, ServiceError::MalformedResponse { .. }));
}

#[test]
fn second_start_replaces_the_first_session() {
    let mut manager = LifecycleManager::new();
    manager.finish_start("alice", reply(200, C1), 1).unwrap();
    let body = r#"{"container_id":"c2","editor_url":"https://e/c2"}"#;
    manager.finish_start("alice", reply(200, body), 9).unwrap();
    assert_eq!(manager.registry().len(), 1);
    let handle = manager.registry().get("alice").unwrap();
    assert_eq!(handle.container_id, "c2");
    assert_eq!(handle.created_at, 9);
    manager.finish_stop("c1", reply(200, "")).unwrap();
    assert!(manager.registry().contains("alice"));
}

#[test]
fn stop_takes_out_every_session_in_the_container() {
    let mut manager = LifecycleManager::new();
    manager.finish_start("alice", reply(200, C1), 1).unwrap();
    manager.finish_start("bob", reply(200, C1), 2).unwrap();
    manager.finish_start("carol", reply(200, r#"{"container_id":"c3","editor_url":"u"}"#), 3).unwrap();
    manager.finish_stop("c1", reply(200, "")).unwrap();
    assert_eq!(manager.registry().len(), 1);
    assert!(manager.registry().contains("carol"));
}

#[test]
fn begin_operations_build_the_requests() {
    let start = LifecycleManager::begin_start("alice");
    assert_eq!(start.url, "https://e2bd84efdf04.ngrok-free.app/start");
    assert_eq!(start.body, br#"{"project_id":"test_project","user_id":"alice"}"#.to_vec());
    let stop = LifecycleManager::begin_stop("c1");
    assert_eq!(stop.url, "https://e2bd84efdf04.ngrok-free.app/stop");
    assert_eq!(stop.body, br#"{"container_id":"c1"}"#.to_vec());
    let odd = LifecycleManager::begin_start("a\"b");
    assert_eq!(odd.body, br#"{"project_id":"test_project","user_id":"a\"b"}"#.to_vec());
}

#[test]
fn timer_fires_the_stop_of_its_container() {
    let mut manager = LifecycleManager::new();
    let timer: ExpiryTimer = manager.finish_start("alice", reply(200, C1), 1).unwrap().expiry;
    assert_eq!(timer.delay_secs(), 5 * 60);
    assert_eq!(timer.armed_at(), 1);
    let container_id = timer.fire(1 + 300 * NANOS_PER_SEC).unwrap();
    assert_eq!(container_id, "c1");
    manager.finish_stop(&container_id, reply(200, "")).unwrap();
    assert!(manager.registry().is_empty());
}

#[test]
fn timer_does_not_fire_before_five_minutes() {
    let mut manager = LifecycleManager::new();
    let armed_at = 1_700_000_000_000_000_000;
    let timer = manager.finish_start("alice", reply(200, C1), armed_at).unwrap().expiry;
    assert!(!timer.is_due(armed_at));
    assert!(!timer.is_due(0));
    assert!(!timer.is_due(armed_at + 300_000_000_000 - 1));
    assert!(timer.is_due(armed_at + 300_000_000_000));
    assert!(timer.is_due(u64::MAX));
    let timer = timer.fire(armed_at + 299 * NANOS_PER_SEC).unwrap_err();
    assert_eq!(timer.container_id(), "c1");
    assert_eq!(timer.armed_at(), armed_at);
    assert_eq!(timer.fire(armed_at + 301 * NANOS_PER_SEC), Ok("c1".to_string()));
}

#[test]
fn timer_armed_at_the_end_of_time_never_fires() {
    let mut manager = LifecycleManager::new();
    let timer = manager.finish_start("alice", reply(200, C1), u64::MAX).unwrap().expiry;
    assert!(!timer.is_due(u64::MAX));
}

#[test]
fn starts_of_two_users_may_finish_in_either_order() {
    let c2 = r#"{"container_id":"c2","editor_url":"https://e/c2"}"#;
    let mut one = LifecycleManager::new();
    one.finish_start("alice", reply(200, C1), 1).unwrap();
    one.finish_start("bob", reply(200, c2), 2).unwrap();
    let mut other = LifecycleManager::new();
    other.finish_start("bob", reply(200, c2), 2).unwrap();
    other.finish_start("alice", reply(200, C1), 1).unwrap();
    for user in ["alice", "bob"] {
        assert_eq!(one.registry().get(user), other.registry().get(user));
    }
    assert_eq!(one.registry().len(), other.registry().len());
}

#[test]
fn check_status_passes_200_only() {
    let passed = check_status(GatewayReply { status: Nat::from(200u64), body: vec![1, 2] });
    assert_eq!(passed, Ok(vec![1, 2]));
    let refused = check_status(GatewayReply { status: Nat::from(404u64), body: vec![1, 2] });
    assert_eq!(refused, Err(ServiceError::ControllerRejected { status: Nat::from(404u64) }));
    let zero = check_status(GatewayReply { status: Nat::from(0u64), body: vec![] });
    assert_eq!(zero, Err(ServiceError::ControllerRejected { status: Nat::from(0u64) }));
}

#[test]
fn check_delivery_hands_the_body_on() {
    assert_eq!(check_delivery(reply(200, "abc")), Ok(b"abc".to_vec()));
    assert_eq!(
        check_delivery(unreachable_host("down")),
        Err(ServiceError::GatewayUnreachable { diagnostic: "down".to_string() })
    );
}

#[test]
fn session_state_follows_the_lifecycle() {
    let requested = SessionState::Requested;
    let starting = requested.on(SessionEvent::StartIssued).unwrap();
    assert_eq!(starting, SessionState::Starting);
    let live = starting.on(SessionEvent::StartSucceeded).unwrap();
    assert_eq!(live, SessionState::Live);
    let stopping = live.on(SessionEvent::StopIssued).unwrap();
    assert_eq!(stopping, SessionState::Stopping);
    assert_eq!(stopping.on(SessionEvent::StopFailed), Some(SessionState::Stopping));
    let stopped = stopping.on(SessionEvent::StopSucceeded).unwrap();
    assert_eq!(stopped, SessionState::Stopped);
    assert!(stopped.is_terminal());
    assert_eq!(starting.on(SessionEvent::StartFailed), Some(SessionState::Failed));
    assert!(SessionState::Failed.is_terminal());
    assert!(!live.is_terminal());
}

#[test]
fn session_state_refuses_events_out_of_turn() {
    assert_eq!(SessionState::Requested.on(SessionEvent::StopIssued), None);
    assert_eq!(SessionState::Live.on(SessionEvent::StartIssued), None);
    assert_eq!(SessionState::Stopped.on(SessionEvent::StopSucceeded), None);
    assert_eq!(SessionState::Failed.on(SessionEvent::StartIssued), None);
    assert_eq!(SessionState::Starting.on(SessionEvent::StopSucceeded), None);
}

#[test]
fn outcomes_stand_for_events() {
    let mut manager = LifecycleManager::new();
    let started = manager.finish_start("alice", reply(200, C1), 1);
    assert_eq!(SessionEvent::of_start(&started), SessionEvent::StartSucceeded);
    let refused = manager.finish_start("bob", reply(404, ""), 1);
    assert_eq!(SessionEvent::of_start(&refused), SessionEvent::StartFailed);
    let stopped = manager.finish_stop("c1", reply(200, ""));
    assert_eq!(SessionEvent::of_stop(&stopped), SessionEvent::StopSucceeded);
    let lost = manager.finish_stop("c1", unreachable_host("x"));
    assert_eq!(SessionEvent::of_stop(&lost), SessionEvent::StopFailed);
    let state = SessionState::Starting.on(SessionEvent::of_start(&started)).unwrap();
    assert_eq!(state, SessionState::Live);
}
