//! Trusted bridges to the outside world.  Each function here wraps a
//! single call whose behavior the verifier takes on faith; everything
//! that can be computed from the returned plain values is verified
//! elsewhere.

use vstd::prelude::*;

verus! {

/// Relies on chrono's `Utc::now`: the current wall-clock time as unix
/// seconds.  Nothing is promised of the value; it depends on the
/// clock.
#[verifier::external_body]
pub fn now_unix() -> i64 {
    chrono::Utc::now().timestamp()
}

/// Relies on `std::path::Path::exists`: whether the path names an
/// entity on disk.  Nothing is promised of the value; it depends on
/// the filesystem.
#[verifier::external_body]
pub fn path_exists(path: &str) -> bool {
    std::path::Path::new(path).exists()
}

} // verus!
