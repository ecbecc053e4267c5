//! Identifiers for new records, drawn at random.

use vstd::prelude::*;

verus! {

/// Draws a 128-bit identifier at random.
///
/// Calls `rand::random`, which draws from the generator of the thread.
/// Nothing is promised of the value: every `u128` can come back, and two
/// calls may return the same one. The call panics where the system cannot
/// seed the generator.
#[verifier::external_body]
pub fn generate_unique_id() -> (unique_id: u128) {
    rand::random()
}

} // verus!
