use vstd::prelude::*;

verus! {

/// The multiplier of the linear congruential step.
pub const LCG_MUL: u64 = 6364136223846793005;

/// The state that follows `s`: one step of a 64-bit linear congruential generator.
pub open spec fn lcg_next(s: u64) -> u64 {
    ((s as int * LCG_MUL as int + 1) % 0x1_0000_0000_0000_0000) as u64
}

/// The 32-bit output drawn from state `s`: the low half of the state that follows it.
pub open spec fn lcg_u32(s: u64) -> u32 {
    (lcg_next(s) % 0x1_0000_0000) as u32
}

/// The value `random(min, max)` draws from state `s`.
pub open spec fn random_of(s: u64, min: u32, max: u32) -> u32 {
    if min >= max {
        min
    } else {
        (min + lcg_u32(s) % ((max - min) as u32)) as u32
    }
}

/// The value `random_range(low, high)` draws from state `s`.
pub open spec fn range_of(s: u64, low: usize, high: usize) -> usize {
    (low + (lcg_u32(s) as int) % ((high - low) as int)) as usize
}

/// A small deterministic pseudo-random generator over a 64-bit state: the same
/// seed always yields the same sequence.
pub struct CubeRng(pub u64);

/// rand_core's error type, named in the signature of `RngCore::try_fill_bytes`;
/// this generator never produces one.
#[verifier::external_type_specification]
#[verifier::external_body]
pub struct ExRandError(rand_core::Error);

impl CubeRng {
    /// Advances the state and returns it.
    pub fn step(&mut self) -> (r: u64)
        ensures
            final(self).0 == lcg_next(old(self).0),
            r == final(self).0,
    {
        self.0 = self.0.wrapping_mul(LCG_MUL).wrapping_add(1);
        self.0
    }

    /// Fills `dest` with bytes, eight from each 64-bit draw, low byte first.
    pub fn fill_bytes(&mut self, dest: &mut [u8])
        ensures
            final(dest)@.len() == old(dest)@.len(),
    {
        let n = dest.len();
        let mut i: usize = 0;
        while i < n
            invariant
                i <= n,
                n == dest@.len(),
                dest@.len() == old(dest)@.len(),
            decreases n - i,
        {
            let mut value = self.step();
            let mut k: usize = 0;
            let ghost i0 = i;
            while k < 8 && i < n
                invariant
                    i == i0 + k,
                    i0 < n,
                    i <= n,
                    n == dest@.len(),
                    dest@.len() == old(dest)@.len(),
                decreases n - i,
            {
                dest[i] = (value % 256) as u8;
                value = value >> 8;
                i = i + 1;
                k = k + 1;
            }
        }
    }

    /// A value in `[min, max)` drawn from the generator; `min` itself, with the
    /// state untouched, when the range is empty.
    pub fn random(&mut self, min: u32, max: u32) -> (r: u32)
        ensures
            r == random_of(old(self).0, min, max),
            min < max ==> min <= r < max && final(self).0 == lcg_next(old(self).0),
            min >= max ==> r == min && final(self).0 == old(self).0,
    {
        if min >= max {
            return min;
        }
        let range_size = max - min;
        let v = (self.step() % 0x1_0000_0000) as u32;
        let m = v % range_size;
        proof {
            assert(m < range_size) by (nonlinear_arith)
                requires m == v % range_size, range_size > 0;
        }
        min + m
    }

    /// A value in `[low, high)` drawn from the generator.
    pub fn random_range(&mut self, low: usize, high: usize) -> (r: usize)
        requires
            low < high,
        ensures
            r == range_of(old(self).0, low, high),
            low <= r < high,
            final(self).0 == lcg_next(old(self).0),
    {
        let v = (self.step() % 0x1_0000_0000) as u32;
        let span = high - low;
        let m = (v as usize) % span;
        proof {
            assert(m < span) by (nonlinear_arith)
                requires m == (v as usize) % span, span > 0;
        }
        low + m
    }
}

impl rand_core::RngCore for CubeRng {
    fn next_u32(&mut self) -> u32 {
        (self.step() % 0x1_0000_0000) as u32
    }

    fn next_u64(&mut self) -> u64 {
        self.step()
    }

    fn fill_bytes(&mut self, dest: &mut [u8]) {
        CubeRng::fill_bytes(self, dest)
    }

    fn try_fill_bytes(&mut self, dest: &mut [u8]) -> Result<(), rand_core::Error> {
        CubeRng::fill_bytes(self, dest);
        Ok(())
    }
}

} // verus!
