use vstd::prelude::*;

verus! {

/// The state the generator starts from.
pub const RNG_SEED: u64 = 0x123456789ABCDEF0u64;

/// One step of the xorshift generator (shifts 13, 7, 17): the next state,
/// which is also the number that the step yields.
pub open spec fn xorshift_next(s: u64) -> u64 {
    let a = s ^ (s << 13u64);
    let b = a ^ (a >> 7u64);
    b ^ (b << 17u64)
}

/// A deterministic xorshift pseudo-random number generator.
pub struct XorShiftRng {
    state: u64,
}

impl View for XorShiftRng {
    type V = u64;

    closed spec fn view(&self) -> u64 {
        self.state
    }
}

impl XorShiftRng {
    /// A generator in its initial state.
    pub fn new() -> (rng: Self)
        ensures
            rng@ == RNG_SEED,
    {
        XorShiftRng { state: RNG_SEED }
    }

    /// A generator that starts from `seed`.
    pub fn with_seed(seed: u64) -> (rng: Self)
        ensures
            rng@ == seed,
    {
        XorShiftRng { state: seed }
    }

    /// The current state.
    pub fn state(&self) -> (s: u64)
        ensures
            s == self@,
    {
        self.state
    }
}

/// Advances the generator by one xorshift step and returns the new state.
pub fn rand_xo_random(rng: &mut XorShiftRng) -> (r: u64)
    ensures
        r == xorshift_next(old(rng)@),
        final(rng)@ == r,
{
    let mut x = rng.state;
    x = x ^ (x << 13u64);
    x = x ^ (x >> 7u64);
    x = x ^ (x << 17u64);
    rng.state = x;
    x
}

/// A non-zero state never steps to zero, so the generator never gets stuck
/// at the one state that maps to itself.
pub proof fn lemma_xorshift_nonzero(s: u64)
    requires
        s != 0,
    ensures
        xorshift_next(s) != 0,
{
    let a = s ^ (s << 13u64);
    let b = a ^ (a >> 7u64);
    assert(s != 0 ==> s ^ (s << 13u64) != 0) by (bit_vector);
    assert(a != 0 ==> a ^ (a >> 7u64) != 0) by (bit_vector);
    assert(b != 0 ==> b ^ (b << 17u64) != 0) by (bit_vector);
}

/// Zero is the one fixed point: a zero state stays zero.
pub proof fn lemma_xorshift_zero()
    ensures
        xorshift_next(0) == 0,
{
    assert(0u64 ^ (0u64 << 13u64) == 0u64) by (bit_vector);
    assert(0u64 ^ (0u64 >> 7u64) == 0u64) by (bit_vector);
    assert(0u64 ^ (0u64 << 17u64) == 0u64) by (bit_vector);
}

} // verus!
