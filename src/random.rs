use rand_xoshiro::Xoshiro256Plus;
use vstd::prelude::*;

use crate::table::SCALE;

verus! {

#[verifier::external_type_specification]
#[verifier::external_body]
pub struct ExXoshiro256Plus(Xoshiro256Plus);

/// Relies on rand's `Rng::gen::<u64>`, which takes the generator's next
/// 64-bit output; nothing is known of its value.
#[verifier::external_body]
fn next_word(rng: &mut Xoshiro256Plus) -> u64 {
    rand::Rng::gen::<u64>(rng)
}

/// One uniform draw: the top 53 bits of the next output, standing for the
/// sample `r / 2^53` in `[0, 1)` (the bits that `rand` turns into an `f64`).
pub fn draw_uniform(rng: &mut Xoshiro256Plus) -> (r: u64)
    ensures
        r < SCALE,
{
    let w = next_word(rng);
    assert(w >> 11u64 < 9007199254740992u64) by (bit_vector);
    w >> 11
}

/// `n` uniform draws, in the order they were taken.
pub fn draw_many(rng: &mut Xoshiro256Plus, n: usize) -> (r: Vec<u64>)
    ensures
        r@.len() == n,
        forall|k: int| 0 <= k < n ==> #[trigger] r@[k] < SCALE,
{
    let mut r: Vec<u64> = Vec::with_capacity(n);
    let mut k: usize = 0;
    while k < n
        invariant
            k <= n,
            r@.len() == k,
            forall|x: int| 0 <= x < k ==> #[trigger] r@[x] < SCALE,
        decreases n - k,
    {
        let u = draw_uniform(rng);
        r.push(u);
        k += 1;
    }
    r
}

} // verus!
