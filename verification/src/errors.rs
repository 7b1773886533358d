//! The failure taxonomy of the service. Every failure carries plain data;
//! the transport layer renders a response from `status_code` and
//! `message`.

use vstd::prelude::*;

verus! {

/// Why a request could not be served.
#[derive(Debug)]
pub enum ServiceError {
    /// Wrong or missing content type, unsupported content encoding, or a
    /// body that could not be decoded or parsed.
    UpstreamProtocol { message: String },
    /// The upstream index answered with a non-success status, surfaced
    /// as-is.
    UpstreamStatus { status: u16 },
    /// The upstream index answered 404 for this package.
    PackageNotFound { package: String },
    /// The object store failed with something other than "no such key".
    StoreInfrastructure { message: String },
    /// The build worker could not be reached or refused the build.
    BuildTrigger { message: String },
    /// The worker reported success but the artifact is still absent.
    BuildConsistency { message: String },
}

impl ServiceError {
    /// The HTTP status this failure is surfaced with: upstream statuses
    /// pass through, a missing package is 404, a refused build trigger is
    /// 501, and every other failure is 500.
    pub fn status_code(&self) -> (code: u16)
        ensures
            code == match *self {
                ServiceError::UpstreamProtocol { .. } => 500u16,
                ServiceError::UpstreamStatus { status } => status,
                ServiceError::PackageNotFound { .. } => 404u16,
                ServiceError::StoreInfrastructure { .. } => 500u16,
                ServiceError::BuildTrigger { .. } => 501u16,
                ServiceError::BuildConsistency { .. } => 500u16,
            },
    {
        match self {
            ServiceError::UpstreamProtocol { .. } => 500,
            ServiceError::UpstreamStatus { status } => *status,
            ServiceError::PackageNotFound { .. } => 404,
            ServiceError::StoreInfrastructure { .. } => 500,
            ServiceError::BuildTrigger { .. } => 501,
            ServiceError::BuildConsistency { .. } => 500,
        }
    }

    /// A human-readable description of the failure.
    pub fn message(&self) -> (r: String)
        ensures
            r@ == match *self {
                ServiceError::UpstreamProtocol { message } => message@,
                ServiceError::UpstreamStatus { .. } => "Upstream index request failed"@,
                ServiceError::PackageNotFound { package } => "Package "@ + package@
                    + " not found!"@,
                ServiceError::StoreInfrastructure { message } => message@,
                ServiceError::BuildTrigger { message } => message@,
                ServiceError::BuildConsistency { message } => message@,
            },
    {
        match self {
            ServiceError::UpstreamProtocol { message } => message.clone(),
            ServiceError::UpstreamStatus { .. } => String::from_str(
                "Upstream index request failed",
            ),
            ServiceError::PackageNotFound { package } => {
                let mut r = String::from_str("Package ");
                r.append(package.as_str());
                r.append(" not found!");
                r
            },
            ServiceError::StoreInfrastructure { message } => message.clone(),
            ServiceError::BuildTrigger { message } => message.clone(),
            ServiceError::BuildConsistency { message } => message.clone(),
        }
    }
}

} // verus!
