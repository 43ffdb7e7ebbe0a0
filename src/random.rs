//! Bytes from the operating system's secure random source.
use vstd::prelude::*;

use rand::RngCore;

verus! {

/// Relies on rand_core's `OsRng::try_fill_bytes`: `n` bytes from the
/// operating system's secure random source, or nothing where that source
/// fails. It reports the failure instead of panicking.
#[verifier::external_body]
pub(crate) fn os_random_bytes(n: usize) -> (r: Option<Vec<u8>>)
    ensures
        r is Some ==> r->0@.len() == n,
{
    let mut bytes = vec![0u8; n];
    match rand_core::OsRng.try_fill_bytes(&mut bytes) {
        Ok(()) => Some(bytes),
        Err(_) => None,
    }
}

} // verus!
