//! The random source of screen effects: a tiny xorshift32 generator,
//! used for the shake angle.

use vstd::prelude::*;

verus! {

/// One xorshift32 step: `x ^= x << 13; x ^= x >> 17; x ^= x << 5`.
pub open spec fn xorshift(x: u32) -> u32 {
    let a = x ^ ((x << 13u32) as u32);
    let b = a ^ (a >> 17u32);
    b ^ ((b << 5u32) as u32)
}

/// Tiny xorshift32 RNG.
pub struct Xorshift32(u32);

impl View for Xorshift32 {
    type V = u32;

    closed spec fn view(&self) -> u32 {
        self.0
    }
}

impl Xorshift32 {
    /// A generator seeded with `seed`; zero, which xorshift never leaves,
    /// becomes one.
    pub fn new(seed: u32) -> (r: Self)
        ensures
            r@ == (if seed == 0 {
                1
            } else {
                seed
            }),
    {
        Xorshift32(if seed > 1 {
            seed
        } else {
            1
        })
    }

    /// Advances the state one step and returns it.
    pub fn next_u32(&mut self) -> (r: u32)
        ensures
            r == xorshift(old(self)@),
            final(self)@ == r,
    {
        let mut x = self.0;
        x = x ^ (x << 13u32);
        x = x ^ (x >> 17u32);
        x = x ^ (x << 5u32);
        self.0 = x;
        x
    }
}

/// A nonzero state never reaches zero, so the generator never gets
/// stuck.
pub proof fn lemma_xorshift_nonzero(x: u32)
    requires
        x != 0,
    ensures
        xorshift(x) != 0,
{
    let a = x ^ ((x << 13u32) as u32);
    assert(a != 0) by (bit_vector)
        requires
            x != 0,
            a == x ^ ((x << 13u32) as u32),
    ;
    let b = a ^ (a >> 17u32);
    assert(b != 0) by (bit_vector)
        requires
            a != 0,
            b == a ^ (a >> 17u32),
    ;
    let c = b ^ ((b << 5u32) as u32);
    assert(c != 0) by (bit_vector)
        requires
            b != 0,
            c == b ^ ((b << 5u32) as u32),
    ;
}

} // verus!
