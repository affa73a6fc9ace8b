//! Why a deployable unit could not be made.
use vstd::prelude::*;

verus! {

/// Why a deployable unit could not be made.
#[derive(Debug, Clone, Copy, PartialEq, Eq, Structural)]
pub enum DeployError {
    /// No image was built for the application.
    NoImages,
    /// The database engine is not one of those known here.
    InvalidDatabaseType,
    /// A known database engine has no default environment.
    NoDefaultEnvs,
}

} // verus!
