use vstd::prelude::*;

use std::time::{SystemTime, UNIX_EPOCH};

verus! {

/// Relies on std::time::SystemTime::now: the current Unix timestamp in
/// milliseconds. The value depends on the wall clock, so nothing is promised
/// of it; every consumer of a timestamp takes it as an argument.
#[verifier::external_body]
pub fn current_unix_ms() -> u64 {
    match SystemTime::now().duration_since(UNIX_EPOCH) {
        Ok(elapsed) => elapsed.as_millis() as u64,
        Err(_) => 0,
    }
}

/// Whether a signature passes the admission predicate. Signature checking is
/// an opaque predicate to this engine; this stub accepts any non-empty
/// signature.
pub fn verify_signature(addr: &str, signature: &str) -> (r: bool)
    ensures
        r == (signature@.len() > 0),
{
    let _ = addr;
    !signature.is_empty()
}

} // verus!
