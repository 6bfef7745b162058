use vstd::prelude::*;

verus! {

/// One step of the xorshift64 generator: the whole state evolution is this
/// pure function, so every draw a caller makes is fully determined by the
/// seed and can be reasoned about exactly.
pub open spec fn rand_step(s: u64) -> u64 {
    let a = s ^ (s << 13u64);
    let b = a ^ (a >> 7u64);
    b ^ (b << 17u64)
}

/// A small deterministic pseudo-random source. The host seeds it once per
/// call from whatever entropy it has; tests seed it with a fixed value so
/// every draw is reproducible.
pub struct RandomSource {
    pub state: u64,
}

impl RandomSource {
    pub fn new(seed: u64) -> (r: RandomSource)
        ensures
            r.state == seed,
    {
        RandomSource { state: seed }
    }

    /// Advances the state once and returns the new raw word.
    pub fn next_u64(&mut self) -> (r: u64)
        ensures
            r == rand_step(old(self).state),
            final(self).state == rand_step(old(self).state),
    {
        let s0 = self.state;
        let a = s0 ^ (s0 << 13);
        let b = a ^ (a >> 7);
        let s1 = b ^ (b << 17);
        self.state = s1;
        s1
    }

    /// A uniform-enough index in [0, n), derived from one draw.
    pub fn next_index(&mut self, n: u32) -> (r: u32)
        requires
            n > 0,
        ensures
            r < n,
            r as u64 == rand_step(old(self).state) % (n as u64),
            final(self).state == rand_step(old(self).state),
    {
        let v = self.next_u64();
        let m = v % (n as u64);
        proof {
            vstd::arithmetic::div_mod::lemma_mod_bound(v as int, n as int);
        }
        m as u32
    }
}

} // verus!
