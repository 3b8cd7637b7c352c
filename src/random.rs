use rand::Rng;
use vstd::prelude::*;

verus! {

/// Relies on `rand::random::<u64>`: a value from the thread-local generator.
/// Nothing is promised of it.
#[verifier::external_body]
pub(crate) fn random_u64() -> (r: u64) {
    rand::random::<u64>()
}

/// Relies on `rand::Rng::fill` with the thread-local generator: `n` random bytes.
#[verifier::external_body]
pub(crate) fn random_bytes(n: usize) -> (r: Vec<u8>)
    ensures
        r@.len() == n,
{
    let mut buf = vec![0u8; n];
    rand::thread_rng().fill(&mut buf[..]);
    buf
}

} // verus!
