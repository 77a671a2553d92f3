//! The one question the crate asks of the file system.

use vstd::prelude::*;

verus! {

/// Whether something exists at `path` right now.
///
/// Trusted: `std::path::Path::exists`.  The answer depends on what is on disk
/// at the moment of the call, so the contract claims nothing about it: callers
/// are verified for either answer.
#[verifier::external_body]
pub(crate) fn path_exists(path: &str) -> (exists: bool) {
    std::path::Path::new(path).exists()
}

/// Probes each path of `paths`, in order.
pub(crate) fn probe_all(paths: &Vec<String>) -> (present: Vec<bool>)
    ensures
        present.len() == paths.len(),
{
    let mut present: Vec<bool> = Vec::new();
    let mut i: usize = 0;
    while i < paths.len()
        invariant
            i <= paths.len(),
            present.len() == i,
        decreases paths.len() - i,
    {
        present.push(path_exists(paths[i].as_str()));
        i += 1;
    }
    present
}

} // verus!
