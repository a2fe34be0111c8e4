//! The secure random source used for salts and session tokens.

use vstd::prelude::*;

verus! {

/// Relies on `rand_chacha::ChaCha12Rng` seeded from OS entropy through
/// `rand_core::SeedableRng::from_os_rng`, and on `RngCore::fill_bytes`
/// filling the whole buffer: sixteen bytes from a cryptographically
/// secure generator. Nothing is promised of the values; two calls may
/// and should differ, so no two results are related here.
#[verifier::external_body]
pub(crate) fn random_bytes_16() -> (r: Vec<u8>)
    ensures
        r@.len() == 16,
{
    let mut buf = [0u8; 16];
    rand_core::RngCore::fill_bytes(
        &mut <rand_chacha::ChaCha12Rng as rand_core::SeedableRng>::from_os_rng(),
        &mut buf,
    );
    buf.to_vec()
}

} // verus!
