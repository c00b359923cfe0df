//! Random draws.

use rand::{thread_rng, Rng};
use vstd::prelude::*;

verus! {

/// Calls `gen_range` of `rand::Rng` on the thread's generator with the
/// range from zero up to, and without, a million. Which number comes out is
/// left open; it lies in that range.
#[verifier::external_body]
pub(crate) fn draw_millionths() -> (draw: u64)
    ensures
        draw < 1_000_000,
{
    thread_rng().gen_range(0..1_000_000u64)
}

} // verus!
