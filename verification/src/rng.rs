//! A small deterministic source of numbers: an xorshift generator with a
//! multiplied output.

use vstd::prelude::*;

verus! {

/// The state of the generator.
#[derive(Debug, Clone, Copy, PartialEq, Eq, Structural)]
pub struct Rng {
    pub state: u64,
}

/// What a seed is mixed with.
pub const SEED_MIX: u64 = 0x9e37_79b9_7f4a_7c15;

/// What the state is multiplied by for output.
pub const OUTPUT_FACTOR: u64 = 0x2545_f491_4f6c_dd1d;

/// One past the largest fraction that `Rng::draw` gives.
pub const DRAWS: u64 = 0x20_0000_0000_0000;

/// The state after `x`.
pub open spec fn scrambled(x: u64) -> u64 {
    let a = x ^ (x << 13);
    let b = a ^ (a >> 7);
    b ^ (b << 17)
}

impl Rng {
    /// The generator after one number.
    pub open spec fn next(self) -> Rng {
        Rng { state: scrambled(self.state) }
    }

    /// The number that the generator gives next.
    pub open spec fn output(self) -> u64 {
        ((scrambled(self.state) * OUTPUT_FACTOR) % 0x1_0000_0000_0000_0000) as u64
    }

    /// The numerator that the generator gives next, over `DRAWS`.
    pub open spec fn fraction(self) -> u64 {
        self.output() >> 11
    }

    /// The generator of a seed.
    pub fn new(seed: u64) -> (r: Self)
        ensures
            r.state == (seed ^ SEED_MIX) | 1,
            r.state != 0,
    {
        let mixed: u64 = seed ^ SEED_MIX;
        assert((mixed | 1) != 0) by (bit_vector);
        Rng { state: mixed | 1 }
    }

    /// Gives a number.
    pub fn next_u64(&mut self) -> (n: u64)
        ensures
            *final(self) == old(self).next(),
            n == old(self).output(),
    {
        let mut x: u64 = self.state;
        x = x ^ (x << 13);
        x = x ^ (x >> 7);
        x = x ^ (x << 17);
        self.state = x;
        x.wrapping_mul(OUTPUT_FACTOR)
    }

    /// Gives a fraction of one, in units of one part in `DRAWS`.
    pub fn draw(&mut self) -> (n: u64)
        ensures
            *final(self) == old(self).next(),
            n == old(self).fraction(),
            n < DRAWS,
    {
        let n: u64 = self.next_u64();
        assert(n >> 11 < 0x20_0000_0000_0000) by (bit_vector);
        n >> 11
    }

    /// Gives an index below `n`.
    pub fn below(&mut self, n: usize) -> (i: usize)
        requires
            n > 0,
        ensures
            *final(self) == old(self).next(),
            i == old(self).output() as int % n as int,
            i < n,
    {
        (self.next_u64() % (n as u64)) as usize
    }
}

/// A fraction is one of `DRAWS` parts.
pub proof fn lemma_fraction(r: Rng)
    ensures
        r.fraction() < DRAWS,
{
    let n = r.output();
    assert(n >> 11 < 0x20_0000_0000_0000) by (bit_vector);
}

/// The generator is the 64-bit xorshift with shifts 13, 7 and 17, whose state
/// times a constant is its number; a fraction is the upper 53 bits of a number.
pub proof fn law_generator_is_xorshift(r: Rng, a: u64, b: u64)
    requires
        a == r.state ^ (r.state << 13),
        b == a ^ (a >> 7),
    ensures
        r.next().state == b ^ (b << 17),
        r.output() as int == ((b ^ (b << 17)) * 0x2545_f491_4f6c_dd1d)
            % 0x1_0000_0000_0000_0000,
        r.fraction() as int == r.output() as int / 0x800,
        SEED_MIX == 0x9e37_79b9_7f4a_7c15,
        DRAWS as int * 0x800 == 0x1_0000_0000_0000_0000,
{
    let n = r.output();
    assert(n >> 11 == n / 0x800) by (bit_vector);
}

/// The state that comes before `x`.
spec fn unscrambled(x: u64) -> u64 {
    let b = x ^ (x << 17) ^ (x << 34) ^ (x << 51);
    let a = b ^ (b >> 7) ^ (b >> 14) ^ (b >> 21) ^ (b >> 28) ^ (b >> 35) ^ (b >> 42) ^ (b >> 49)
        ^ (b >> 56) ^ (b >> 63);
    a ^ (a << 13) ^ (a << 26) ^ (a << 39) ^ (a << 52)
}

proof fn lemma_unshift_17(x: u64)
    by (bit_vector)
    ensures
        ({
            let b = x ^ (x << 17) ^ (x << 34) ^ (x << 51);
            b ^ (b << 17) == x
        }),
{
}

proof fn lemma_unshift_7(b: u64)
    by (bit_vector)
    ensures
        ({
            let a = b ^ (b >> 7) ^ (b >> 14) ^ (b >> 21) ^ (b >> 28) ^ (b >> 35) ^ (b >> 42) ^ (b
                >> 49) ^ (b >> 56) ^ (b >> 63);
            a ^ (a >> 7) == b
        }),
{
}

proof fn lemma_unshift_13(a: u64)
    by (bit_vector)
    ensures
        ({
            let s = a ^ (a << 13) ^ (a << 26) ^ (a << 39) ^ (a << 52);
            s ^ (s << 13) == a
        }),
{
}

/// Every number but zero is given by some generator that can occur: there is a
/// state other than zero that gives it next.
pub proof fn law_every_number_is_given(n: u64) -> (r: Rng)
    requires
        n != 0,
    ensures
        r.output() == n,
        r.state != 0,
{
    let inverse: int = 0x59071d96d81ecd35;
    let size: int = 0x1_0000_0000_0000_0000;
    let x: u64 = ((n as int * inverse) % size) as u64;
    let b = x ^ (x << 17) ^ (x << 34) ^ (x << 51);
    let a = b ^ (b >> 7) ^ (b >> 14) ^ (b >> 21) ^ (b >> 28) ^ (b >> 35) ^ (b >> 42) ^ (b >> 49)
        ^ (b >> 56) ^ (b >> 63);
    let r = Rng { state: unscrambled(x) };
    lemma_unshift_17(x);
    lemma_unshift_7(b);
    lemma_unshift_13(a);
    assert(scrambled(r.state) == x);
    assert((x as int * OUTPUT_FACTOR as int) % size == n) by {
        vstd::arithmetic::div_mod::lemma_mul_mod_noop_left(
            n as int * inverse,
            OUTPUT_FACTOR as int,
            size,
        );
        assert((n as int * inverse) * (OUTPUT_FACTOR as int) == n as int + size * (n as int
            * 0xcf65b3f17bf4a6bint)) by (nonlinear_arith)
            requires
                inverse * (OUTPUT_FACTOR as int) == 1 + size * 0xcf65b3f17bf4a6bint,
        ;
        vstd::arithmetic::div_mod::lemma_mod_multiples_vanish(
            n as int * 0xcf65b3f17bf4a6bint,
            n as int,
            size,
        );
        vstd::arithmetic::div_mod::lemma_small_mod(n as nat, size as nat);
    }
    if r.state == 0 {
        lemma_zero();
    }
    r
}

/// The generator never runs dry: from a state other than zero it never comes to
/// zero, which it could not leave. Different states stay different.
pub proof fn law_generator_never_stalls(a: Rng, b: Rng)
    ensures
        a.state != 0 ==> a.next().state != 0,
        a != b ==> a.next() != b.next(),
        (Rng { state: 0 }).next() == (Rng { state: 0 }),
{
    let (x, y) = (a.state, b.state);
    lemma_shift_13(x, y);
    let (x1, y1) = (x ^ (x << 13), y ^ (y << 13));
    lemma_shift_7(x1, y1);
    let (x2, y2) = (x1 ^ (x1 >> 7), y1 ^ (y1 >> 7));
    lemma_shift_17(x2, y2);
    lemma_zero();
    if x != 0 {
        lemma_shift_13(x, 0);
        lemma_shift_7(x1, 0);
        lemma_shift_17(x2, 0);
    }
}

proof fn lemma_zero()
    by (bit_vector)
    ensures
        0u64 ^ (0u64 << 13) == 0,
        0u64 ^ (0u64 >> 7) == 0,
        0u64 ^ (0u64 << 17) == 0,
{
}

proof fn lemma_shift_13(x: u64, y: u64)
    by (bit_vector)
    ensures
        x != y ==> x ^ (x << 13) != y ^ (y << 13),
{
}

proof fn lemma_shift_7(x: u64, y: u64)
    by (bit_vector)
    ensures
        x != y ==> x ^ (x >> 7) != y ^ (y >> 7),
{
}

proof fn lemma_shift_17(x: u64, y: u64)
    by (bit_vector)
    ensures
        x != y ==> x ^ (x << 17) != y ^ (y << 17),
{
}

}
