//! The backends that run apps, and what they have in common.
pub mod error;
pub mod null;
pub mod docker;
pub mod kubernetes;
pub mod mock;

pub use error::BackendError;
pub use null::NullBackend;

use vstd::prelude::*;

verus! {

/// A fresh identifier for a new app: `rand::random::<u32>()`, a number drawn
/// from the thread's random generator. Any `u32` may come back, and two
/// calls may give the same number; nothing is promised of the value. It
/// panics only when the operating system's source of randomness fails,
/// which depends on the machine and on no argument.
#[verifier::external_body]
pub(crate) fn random_app_id() -> u32 {
    rand::random::<u32>()
}

/// The backends that the controller can run apps with.
#[derive(Debug, Clone, Copy, PartialEq, Eq, Structural)]
pub enum BackendKind {
    Kubernetes,
    Docker,
    Null,
}

/// The backend named by `APP_CONTROLLER_BACKEND`, given its value (if it is
/// set): `kubernetes` when it is not set; `kubernetes`, `docker` or `null`
/// by name; none for any other name.
pub open spec fn backend_for(name: Option<Seq<char>>) -> Option<BackendKind> {
    match name {
        None => Some(BackendKind::Kubernetes),
        Some(n) => if n == "kubernetes"@ {
            Some(BackendKind::Kubernetes)
        } else if n == "docker"@ {
            Some(BackendKind::Docker)
        } else if n == "null"@ {
            Some(BackendKind::Null)
        } else {
            None
        },
    }
}

/// Chooses the backend from the value of `APP_CONTROLLER_BACKEND`, if set.
pub fn choose_backend(name: Option<&str>) -> (k: Option<BackendKind>)
    ensures
        k == backend_for(
            match name {
                Some(n) => Some(n@),
                None => None,
            },
        ),
{
    match name {
        None => Some(BackendKind::Kubernetes),
        Some(n) => if crate::text::str_equal(n, "kubernetes") {
            Some(BackendKind::Kubernetes)
        } else if crate::text::str_equal(n, "docker") {
            Some(BackendKind::Docker)
        } else if crate::text::str_equal(n, "null") {
            Some(BackendKind::Null)
        } else {
            None
        },
    }
}

} // verus!
