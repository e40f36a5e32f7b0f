//! The source of per-file shift values.

use vstd::prelude::*;

verus! {

#[verifier::external_type_specification]
#[verifier::external_body]
pub struct ExThreadRng(rand::rngs::ThreadRng);

/// Relies on `rand::thread_rng`: a handle to the thread-local generator.
#[verifier::external_body]
fn thread_rng_handle() -> (r: rand::rngs::ThreadRng) {
    rand::thread_rng()
}

/// Relies on `rand::Rng::gen_range` over the inclusive range `lo..=hi`: the
/// value drawn lies in that range (it panics only on an empty range, which
/// `lo <= hi` leaves out).
#[verifier::external_body]
fn draw_in_range(rng: &mut rand::rngs::ThreadRng, lo: u8, hi: u8) -> (r: u8)
    requires
        lo <= hi,
    ensures
        lo <= r <= hi,
{
    rand::Rng::gen_range(rng, lo..=hi)
}

/// A generator of shift values, advanced once per file.
pub struct ShiftSource {
    rng: rand::rngs::ThreadRng,
}

impl ShiftSource {
    /// A source drawing from the thread-local generator.
    pub fn new() -> (r: ShiftSource) {
        ShiftSource { rng: thread_rng_handle() }
    }

    /// A fresh shift value, uniformly drawn from `1..=255`; never zero.
    pub fn next_shift(&mut self) -> (r: u8)
        ensures
            1 <= r <= 255,
    {
        draw_in_range(&mut self.rng, 1, 255)
    }
}

} // verus!
