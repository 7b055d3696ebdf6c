//! The ways in which an operation of this service fails.

use crate::gateway::{nat_text, nat_display, nat_value};
use vstd::prelude::*;
use vstd::string::*;

verus! {

/// Why an operation did not succeed. Every failure is handed to the caller as
/// it is; nothing is retried.
#[derive(Debug, PartialEq, Eq)]
pub enum ServiceError {
    /// The host could not deliver the request or the reply.
    GatewayUnreachable { diagnostic: String },
    /// The controller answered with a status other than 200.
    ControllerRejected { status: candid::Nat },
    /// The controller's reply did not have the expected shape.
    MalformedResponse { detail: String },
    /// A lookup in the project store found nothing.
    NotFound,
    /// A function of a project was called before the project was deployed.
    NotDeployed,
}

/// A failure as plain mathematical values.
pub enum Failure {
    GatewayUnreachable { diagnostic: Seq<char> },
    ControllerRejected { status: nat },
    MalformedResponse { detail: Seq<char> },
    NotFound,
    NotDeployed,
}

impl View for ServiceError {
    type V = Failure;

    open spec fn view(&self) -> Failure {
        match self {
            ServiceError::GatewayUnreachable { diagnostic } => Failure::GatewayUnreachable {
                diagnostic: diagnostic@,
            },
            ServiceError::ControllerRejected { status } => Failure::ControllerRejected {
                status: nat_value(*status),
            },
            ServiceError::MalformedResponse { detail } => Failure::MalformedResponse {
                detail: detail@,
            },
            ServiceError::NotFound => Failure::NotFound,
            ServiceError::NotDeployed => Failure::NotDeployed,
        }
    }
}

/// The kind of a failure, without what it carries.
#[derive(Clone, Copy, Debug, PartialEq, Eq, Structural)]
pub enum FailureKind {
    GatewayUnreachable,
    ControllerRejected,
    MalformedResponse,
    NotFound,
    NotDeployed,
}

/// The kind of `failure`.
pub open spec fn kind_of(failure: Failure) -> FailureKind {
    match failure {
        Failure::GatewayUnreachable { .. } => FailureKind::GatewayUnreachable,
        Failure::ControllerRejected { .. } => FailureKind::ControllerRejected,
        Failure::MalformedResponse { .. } => FailureKind::MalformedResponse,
        Failure::NotFound => FailureKind::NotFound,
        Failure::NotDeployed => FailureKind::NotDeployed,
    }
}

/// The message that a caller is shown for a failure.
pub open spec fn message_text(failure: Failure) -> Seq<char> {
    match failure {
        Failure::GatewayUnreachable { diagnostic } => "HTTP call failed: "@ + diagnostic,
        Failure::ControllerRejected { status } => "Non-200 status code: "@ + nat_display(status),
        Failure::MalformedResponse { detail } => "JSON parse error: "@ + detail,
        Failure::NotFound => "Project not found"@,
        Failure::NotDeployed => "Project not deployed"@,
    }
}

impl ServiceError {
    /// The kind of the failure.
    pub fn kind(&self) -> (kind: FailureKind)
        ensures
            kind == kind_of(self@),
    {
        match self {
            ServiceError::GatewayUnreachable { .. } => FailureKind::GatewayUnreachable,
            ServiceError::ControllerRejected { .. } => FailureKind::ControllerRejected,
            ServiceError::MalformedResponse { .. } => FailureKind::MalformedResponse,
            ServiceError::NotFound => FailureKind::NotFound,
            ServiceError::NotDeployed => FailureKind::NotDeployed,
        }
    }

    /// A human-readable message that names the kind of failure and carries
    /// the diagnostic, the raw status or the parse error.
    pub fn message(&self) -> (text: String)
        ensures
            text@ == message_text(self@),
    {
        match self {
            ServiceError::GatewayUnreachable { diagnostic } => {
                let mut text = String::from_str("HTTP call failed: ");
                text.append(diagnostic.as_str());
                text
            },
            ServiceError::ControllerRejected { status } => {
                let mut text = String::from_str("Non-200 status code: ");
                let shown = nat_text(status);
                text.append(shown.as_str());
                text
            },
            ServiceError::MalformedResponse { detail } => {
                let mut text = String::from_str("JSON parse error: ");
                text.append(detail.as_str());
                text
            },
            ServiceError::NotFound => String::from_str("Project not found"),
            ServiceError::NotDeployed => String::from_str("Project not deployed"),
        }
    }
}

} // verus!
