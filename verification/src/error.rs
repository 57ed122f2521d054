//! The error taxonomy of the library.
//!
//! Structural and definition errors are raised before any runtime call is
//! issued; runtime failures are reported separately so that best-effort
//! paths can absorb them.

use vstd::prelude::*;
use vstd::string::StringExecFns;

verus! {

/// The four classes of errors a stack operation can surface.
#[derive(Debug, Clone, Copy, PartialEq, Eq, Structural)]
pub enum ErrorKind {
    /// An invalid definition: missing dependency, dependency cycle,
    /// duplicate registration, or a service with no image.
    Configuration,
    /// An operation named a service that the definition does not hold.
    NotFound,
    /// A feature that is intentionally out of scope.
    NotSupported,
    /// A runtime client call failed.
    RuntimeUnavailable,
}

/// Why a stack operation was refused or failed.
#[derive(Debug)]
pub enum StackError {
    /// A service depends on a name that is not defined in the stack.
    MissingDependency { service: String, dependency: String },
    /// The dependency graph admits no deployment order: it has a cycle.
    CircularDependency,
    /// A service was registered twice under one name.
    DuplicateService { service: String, stack: String },
    /// The named service is not part of the stack.
    ServiceNotFound { service: String },
    /// The service defines no image to run.
    NoImage { service: String },
    /// The service is defined by a build context, and running a build is
    /// out of the orchestrator's scope.
    BuildNotSupported { service: String },
    /// A document handed to the configuration loader could not be read
    /// as a service topology.
    YamlParse { detail: String },
    /// A runtime client call failed; the detail is the client's report.
    RuntimeUnavailable { detail: String },
}

impl StackError {
    /// The class an error belongs to.
    pub open spec fn spec_kind(self) -> ErrorKind {
        match self {
            StackError::MissingDependency { .. } => ErrorKind::Configuration,
            StackError::CircularDependency => ErrorKind::Configuration,
            StackError::DuplicateService { .. } => ErrorKind::Configuration,
            StackError::ServiceNotFound { .. } => ErrorKind::NotFound,
            StackError::NoImage { .. } => ErrorKind::Configuration,
            StackError::BuildNotSupported { .. } => ErrorKind::NotSupported,
            StackError::YamlParse { .. } => ErrorKind::Configuration,
            StackError::RuntimeUnavailable { .. } => ErrorKind::RuntimeUnavailable,
        }
    }

    /// The class an error belongs to.
    pub fn kind(&self) -> (k: ErrorKind)
        ensures
            k == self.spec_kind(),
    {
        match self {
            StackError::MissingDependency { .. } => ErrorKind::Configuration,
            StackError::CircularDependency => ErrorKind::Configuration,
            StackError::DuplicateService { .. } => ErrorKind::Configuration,
            StackError::ServiceNotFound { .. } => ErrorKind::NotFound,
            StackError::NoImage { .. } => ErrorKind::Configuration,
            StackError::BuildNotSupported { .. } => ErrorKind::NotSupported,
            StackError::YamlParse { .. } => ErrorKind::Configuration,
            StackError::RuntimeUnavailable { .. } => ErrorKind::RuntimeUnavailable,
        }
    }

    /// The text of an error's report.
    pub open spec fn spec_message(self) -> Seq<char> {
        match self {
            StackError::MissingDependency { service, dependency } => "Service '"@ + service@
                + "' depends on '"@ + dependency@ + "' which is not defined"@,
            StackError::CircularDependency => "Circular dependency detected in services"@,
            StackError::DuplicateService { service, stack } => "Service '"@ + service@
                + "' already registered in stack '"@ + stack@ + "'"@,
            StackError::ServiceNotFound { service } => "Service '"@ + service@
                + "' not found in stack"@,
            StackError::NoImage { service } => "Service '"@ + service@ + "' has no image defined"@,
            StackError::BuildNotSupported { service } => "Service '"@ + service@
                + "' is defined by a build context, which cannot be deployed"@,
            StackError::YamlParse { detail } => "Failed to parse YAML: "@ + detail@,
            StackError::RuntimeUnavailable { detail } => "Runtime client error: "@ + detail@,
        }
    }

    /// Renders the error as text.
    pub fn message(&self) -> (m: String)
        ensures
            m@ == self.spec_message(),
    {
        match self {
            StackError::MissingDependency { service, dependency } => {
                let mut m = String::from_str("Service '");
                m.append(service.as_str());
                m.append("' depends on '");
                m.append(dependency.as_str());
                m.append("' which is not defined");
                m
            },
            StackError::CircularDependency => {
                String::from_str("Circular dependency detected in services")
            },
            StackError::DuplicateService { service, stack } => {
                let mut m = String::from_str("Service '");
                m.append(service.as_str());
                m.append("' already registered in stack '");
                m.append(stack.as_str());
                m.append("'");
                m
            },
            StackError::ServiceNotFound { service } => {
                let mut m = String::from_str("Service '");
                m.append(service.as_str());
                m.append("' not found in stack");
                m
            },
            StackError::NoImage { service } => {
                let mut m = String::from_str("Service '");
                m.append(service.as_str());
                m.append("' has no image defined");
                m
            },
            StackError::BuildNotSupported { service } => {
                let mut m = String::from_str("Service '");
                m.append(service.as_str());
                m.append("' is defined by a build context, which cannot be deployed");
                m
            },
            StackError::YamlParse { detail } => {
                let mut m = String::from_str("Failed to parse YAML: ");
                m.append(detail.as_str());
                m
            },
            StackError::RuntimeUnavailable { detail } => {
                let mut m = String::from_str("Runtime client error: ");
                m.append(detail.as_str());
                m
            },
        }
    }
}

} // verus!
