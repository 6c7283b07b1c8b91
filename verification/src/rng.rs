//! A small xorshift64 generator for the idle behavior's random choices.
//!
//! The caller seeds it from the clock and turns its numbers into fractions.
use vstd::prelude::*;

verus! {

/// One xorshift64 step: shifts of 13 left, 7 right and 17 left, each
/// combined with exclusive or.
pub open spec fn xorshift(x: u64) -> u64 {
    let a = x ^ (x << 13u64);
    let b = a ^ (a >> 7u64);
    b ^ (b << 17u64)
}

/// The generator's state; it is never zero.
#[derive(Debug, Clone, Copy)]
pub struct Rng {
    state: u64,
}

impl View for Rng {
    type V = u64;

    closed spec fn view(&self) -> u64 {
        self.state
    }
}

/// A step keeps a nonzero state nonzero: each of the three combinations
/// keeps the lowest (for a left shift) or highest (for a right shift) set bit.
pub proof fn lemma_xorshift_nonzero(x: u64)
    requires
        x != 0,
    ensures
        xorshift(x) != 0,
{
    let a = x ^ (x << 13u64);
    assert(a != 0) by (bit_vector)
        requires
            x != 0,
            a == x ^ (x << 13u64),
    ;
    let b = a ^ (a >> 7u64);
    assert(b != 0) by (bit_vector)
        requires
            a != 0,
            b == a ^ (a >> 7u64),
    ;
    let c = b ^ (b << 17u64);
    assert(c != 0) by (bit_vector)
        requires
            b != 0,
            c == b ^ (b << 17u64),
    ;
}

impl Rng {
    /// A generator from a seed; the lowest bit is set so that the state is
    /// never zero.
    pub fn new(seed: u64) -> (r: Rng)
        ensures
            r@ == seed | 1,
            r@ != 0,
    {
        assert((seed | 1) != 0) by (bit_vector);
        Rng { state: seed | 1 }
    }

    /// The next number; the state moves on by one step.
    pub fn next_u64(&mut self) -> (r: u64)
        requires
            old(self)@ != 0,
        ensures
            r == xorshift(old(self)@),
            final(self)@ == r,
            r != 0,
    {
        let mut x = self.state;
        x = x ^ (x << 13u64);
        x = x ^ (x >> 7u64);
        x = x ^ (x << 17u64);
        proof {
            lemma_xorshift_nonzero(self.state);
        }
        self.state = x;
        x
    }

    /// The top 24 bits of the next number (the caller divides by 2^24 for a
    /// fraction in `[0, 1)`).
    pub fn next_bits24(&mut self) -> (r: u32)
        requires
            old(self)@ != 0,
        ensures
            r == xorshift(old(self)@) >> 40u64,
            r < 0x100_0000,
            final(self)@ == xorshift(old(self)@),
            final(self)@ != 0,
    {
        let x = self.next_u64();
        assert(x >> 40u64 < 0x100_0000) by (bit_vector);
        (x >> 40u64) as u32
    }
}

} // verus!
