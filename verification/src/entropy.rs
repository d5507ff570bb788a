//! The two inputs of an identifier that change from call to call: the local
//! time and a random nonce.

use rand::Rng;
use vstd::prelude::*;

verus! {

/// Calls `chrono::Local::now()` and renders it with `to_string`. The result
/// depends on the clock and the machine's time zone: nothing is stated of it.
#[verifier::external_body]
pub(crate) fn local_time_text() -> (res: String) {
    chrono::Local::now().to_string()
}

/// Draws 32 bytes from `rand::thread_rng()`. The result is random: nothing is
/// stated of it beyond its type.
#[verifier::external_body]
pub(crate) fn random_nonce() -> (res: [u8; 32]) {
    rand::thread_rng().gen::<[u8; 32]>()
}

} // verus!
