//! The seeded part of the laboratory world: a 64-bit linear congruential
//! generator decides, for each of the six pillars, how tall it is and how far
//! it is shifted along y.

use vstd::prelude::*;

verus! {

/// Pillars placed from seeded draws.
pub const PILLARS: usize = 6;

/// Multiplier of the generator.
pub const LCG_MULTIPLIER: u64 = 6364136223846793005;

/// Generator state after `k` steps from `seed`: it starts at `seed + 1`, and
/// each step multiplies by the multiplier and adds one, modulo 2^64.
pub open spec fn lcg_state(seed: u32, k: nat) -> u64
    decreases k,
{
    if k == 0 {
        (seed + 1) as u64
    } else {
        lcg_state(seed, (k - 1) as nat).wrapping_mul(LCG_MULTIPLIER).wrapping_add(1)
    }
}

/// The `k`-th draw (from one): the high 32 bits of the state after `k` steps.
pub open spec fn lcg_draw(seed: u32, k: nat) -> u32 {
    (lcg_state(seed, k) >> 32u64) as u32
}

/// Pillar `i` takes two draws in turn: the first, modulo 5, is how many
/// units it rises above three; the second, modulo 3, is how many half units
/// it is shifted along y.
pub open spec fn pillar_draw(seed: u32, i: nat) -> (u32, u32) {
    (lcg_draw(seed, 2 * i + 1) % 5, lcg_draw(seed, 2 * i + 2) % 3)
}

/// The extra height and the half-unit shift of each pillar for `seed`, in
/// placement order.
pub fn pillar_draws(seed: u32) -> (draws: Vec<(u32, u32)>)
    ensures
        draws.len() == PILLARS,
        forall|i: int| 0 <= i < PILLARS ==> #[trigger] draws[i] == pillar_draw(seed, i as nat),
{
    let mut state: u64 = seed as u64 + 1;
    let mut draws: Vec<(u32, u32)> = Vec::new();
    let mut i: usize = 0;
    while i < PILLARS
        invariant
            i <= PILLARS,
            draws.len() == i,
            state == lcg_state(seed, (2 * i) as nat),
            forall|j: int| 0 <= j < i ==> #[trigger] draws[j] == pillar_draw(seed, j as nat),
        decreases PILLARS - i,
    {
        state = state.wrapping_mul(LCG_MULTIPLIER).wrapping_add(1);
        let height = ((state >> 32u64) as u32) % 5;
        state = state.wrapping_mul(LCG_MULTIPLIER).wrapping_add(1);
        let offset = ((state >> 32u64) as u32) % 3;
        proof {
            assert(lcg_state(seed, (2 * i + 1) as nat) == lcg_state(seed, (2 * i) as nat).wrapping_mul(
                LCG_MULTIPLIER,
            ).wrapping_add(1));
            assert(lcg_state(seed, (2 * i + 2) as nat) == lcg_state(seed, (2 * i + 1) as nat).wrapping_mul(
                LCG_MULTIPLIER,
            ).wrapping_add(1));
        }
        draws.push((height, offset));
        i = i + 1;
    }
    draws
}

} // verus!
