//! Deterministic pseudo-random generator: a 32-bit xorshift state machine.
//!
//! Every image row owns a private generator seeded from the row index alone,
//! so a row's sample stream never depends on scheduling order or worker count.
use vstd::prelude::*;

verus! {

/// One xorshift transition with the fixed shift constants 13, 17 and 5.
pub open spec fn xorshift_step(x: u32) -> u32 {
    let a = x ^ (x << 13u32);
    let b = a ^ (a >> 17u32);
    b ^ (b << 5u32)
}

/// The generator state reached from `seed` after `n` calls.
pub open spec fn state_after(seed: u32, n: nat) -> u32
    decreases n,
{
    if n == 0 {
        seed
    } else {
        xorshift_step(state_after(seed, (n - 1) as nat))
    }
}

/// Pseudo-random generator over a single 32-bit state word.
pub struct XorShiftRandom {
    state: u32,
}

impl View for XorShiftRandom {
    type V = u32;

    closed spec fn view(&self) -> u32 {
        self.state
    }
}

impl XorShiftRandom {
    /// A fresh generator whose state is exactly the seed.
    pub fn new(seed: u32) -> (r: XorShiftRandom)
        ensures
            r@ == seed,
    {
        XorShiftRandom { state: seed }
    }

    /// Advances the state by one xorshift transition and returns it.
    pub fn next(&mut self) -> (r: u32)
        ensures
            r == xorshift_step(old(self)@),
            final(self)@ == r,
    {
        let mut x = self.state;
        x ^= x << 13u32;
        x ^= x >> 17u32;
        x ^= x << 5u32;
        self.state = x;
        x
    }
}

/// The seed assigned to an image row: the row index plus one, so distinct
/// rows draw from distinct, reproducible streams.
pub fn row_seed(y: u32) -> (s: u32)
    requires
        y < u32::MAX,
    ensures
        s == y + 1,
{
    y + 1
}

/// Two generators seeded alike pass through identical states forever: the
/// whole output stream is a function of the seed and of nothing else.
pub proof fn lemma_same_seed_same_stream(s1: u32, s2: u32, n: nat)
    requires
        s1 == s2,
    ensures
        state_after(s1, n) == state_after(s2, n),
    decreases n,
{
    if n > 0 {
        lemma_same_seed_same_stream(s1, s2, (n - 1) as nat);
    }
}

} // verus!
