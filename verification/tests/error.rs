use candid::Nat;
use icpad::error::{FailureKind, ServiceError};

#[test]
fn messages_name_the_kind_of_failure() {
    assert_eq!(
        ServiceError::GatewayUnreachable { diagnostic: "SysTransient".to_string() }.message(),
        "HTTP call failed: SysTransient"
    );
    assert_eq!(
        ServiceError::ControllerRejected { status: Nat::from(404u64) }.message(),
        "Non-200 status code: 404"
    );
    assert_eq!(
        ServiceError::MalformedResponse { detail: "EOF".to_string() }.message(),
        "JSON parse error: EOF"
    );
    assert_eq!(ServiceError::NotFound.message(), "Project not found");
    assert_eq!(ServiceError::NotDeployed.message(), "Project not deployed");
}

#[test]
fn status_is_shown_as_candid_prints_it() {
    assert_eq!(
        ServiceError::ControllerRejected { status: Nat::from(1000u64) }.message(),
        "Non-200 status code: 1_000"
    );
    assert_eq!(
        ServiceError::ControllerRejected { status: Nat::from(0u64) }.message(),
        "Non-200 status code: 0"
    );
}

#[test]
fn kinds_leave_out_what_a_failure_carries() {
    assert_eq!(
        ServiceError::GatewayUnreachable { diagnostic: "x".to_string() }.kind(),
        FailureKind::GatewayUnreachable
    );
    assert_eq!(
        ServiceError::ControllerRejected { status: Nat::from(500u64) }.kind(),
        FailureKind::ControllerRejected
    );
    assert_eq!(
        ServiceError::MalformedResponse { detail: String::new() }.kind(),
        FailureKind::MalformedResponse
    );
    assert_eq!(ServiceError::NotFound.kind(), FailureKind::NotFound);
    assert_eq!(ServiceError::NotDeployed.kind(), FailureKind::NotDeployed);
}
