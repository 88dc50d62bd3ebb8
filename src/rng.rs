use vstd::prelude::*;

verus! {

/// Added to the seed to form the initial state.
pub const SEED_MIX: u64 = 0x9E3779B97F4A7C15;

/// Multiplier of the linear congruential step.
pub const LCG_MUL: u64 = 6364136223846793005;

/// Increment of the linear congruential step.
pub const LCG_INC: u64 = 1442695040888963407;

/// The state after one linear congruential step.
pub open spec fn lcg_step(s: u64) -> u64 {
    ((s as int * LCG_MUL as int + LCG_INC as int) % 0x1_0000_0000_0000_0000) as u64
}

/// The initial state for a seed.
pub open spec fn seeded_state(seed: u64) -> u64 {
    ((seed as int + SEED_MIX as int) % 0x1_0000_0000_0000_0000) as u64
}

/// The index `k` of the uniform draw `(k + 0.5) / 2^53` taken from a raw value:
/// its high 53 bits.
pub open spec fn open01_index(raw: u64) -> u64 {
    raw / 2048
}

/// What the next standard-normal sample is made of.
///
/// `Cached` hands back the bit pattern of the second value of the last pair;
/// `Fresh` holds the indices of two new uniform draws, from which a new pair
/// is to be formed.
#[derive(Clone, Copy, Debug, PartialEq, Eq, Structural)]
pub enum NormalDraw {
    Cached(u64),
    Fresh(u64, u64),
}

/// `after` and `r` are what starting a normal sample from `before` gives: the
/// cached value if there is one, else two fresh uniform draws.
pub open spec fn normal_step(before: DeterministicRng, after: DeterministicRng, r: NormalDraw) -> bool {
    match before.cached_normal {
        Some(c) => {
            &&& r == NormalDraw::Cached(c)
            &&& after.state == before.state
            &&& after.cached_normal.is_none()
        },
        None => {
            let s1 = lcg_step(before.state);
            let s2 = lcg_step(s1);
            &&& r == NormalDraw::Fresh(open01_index(s1), open01_index(s2))
            &&& after.state == s2
            &&& after.cached_normal.is_none()
        },
    }
}

/// A reproducible source of 64-bit values and of uniform draws in (0, 1).
///
/// The second normal sample of each Box–Muller pair is kept in `cached_normal`
/// as the bit pattern of the `f64` value; the generator never reads it, it
/// only hands it back.
pub struct DeterministicRng {
    pub state: u64,
    pub cached_normal: Option<u64>,
}

impl DeterministicRng {
    /// A generator seeded with `seed`, with an empty cache.
    pub fn new(seed: u64) -> (r: Self)
        ensures
            r.state == seeded_state(seed),
            r.cached_normal.is_none(),
    {
        DeterministicRng { state: seed.wrapping_add(SEED_MIX), cached_normal: None }
    }

    /// Advances the state by one step and returns the new state.
    pub fn next_u64(&mut self) -> (r: u64)
        ensures
            r == lcg_step(old(self).state),
            final(self).state == r,
            final(self).cached_normal == old(self).cached_normal,
    {
        let s0 = self.state;
        let m = s0.wrapping_mul(LCG_MUL);
        self.state = m.wrapping_add(LCG_INC);
        proof {
            let p: int = s0 as int * LCG_MUL as int;
            let w: int = 0x1_0000_0000_0000_0000;
            assert(m as int == p % w);
            vstd::arithmetic::div_mod::lemma_add_mod_noop(p, LCG_INC as int, w);
            vstd::arithmetic::div_mod::lemma_mod_twice(LCG_INC as int, w);
        }
        self.state
    }

    /// One uniform draw in (0, 1), given as the index `k` of `(k + 0.5) / 2^53`:
    /// the high 53 bits of the next raw value.
    pub fn next_open01_index(&mut self) -> (r: u64)
        ensures
            final(self).state == lcg_step(old(self).state),
            r == open01_index(final(self).state),
            r < 0x20_0000_0000_0000,
            final(self).cached_normal == old(self).cached_normal,
    {
        let raw = self.next_u64();
        let k = raw >> 11u64;
        assert(k == raw / 2048 && k < 0x20_0000_0000_0000) by (bit_vector)
            requires
                k == raw >> 11u64,
        ;
        k
    }

    /// Starts the next standard-normal sample.
    ///
    /// With a cached value, that value is taken out of the cache and no raw
    /// value is consumed. Otherwise two uniform draws are consumed and the
    /// caller forms the pair from them, returns its first value and hands the
    /// second to `keep_normal`.
    pub fn begin_normal(&mut self) -> (r: NormalDraw)
        ensures
            normal_step(*old(self), *final(self), r),
    {
        match self.cached_normal.take() {
            Some(c) => NormalDraw::Cached(c),
            None => {
                let u1 = self.next_open01_index();
                let u2 = self.next_open01_index();
                NormalDraw::Fresh(u1, u2)
            },
        }
    }

    /// Keeps the bit pattern of the second value of a pair for the next sample.
    pub fn keep_normal(&mut self, bits: u64)
        ensures
            final(self).state == old(self).state,
            final(self).cached_normal == Some(bits),
    {
        self.cached_normal = Some(bits);
    }
}

/// The generator is deterministic: two generators in the same state, the one
/// a seed gives for instance, hand out the same normal draws and end in the
/// same state, so equal seeds give equal streams.
pub proof fn lemma_normal_step_deterministic(
    a: DeterministicRng,
    b: DeterministicRng,
    a_after: DeterministicRng,
    b_after: DeterministicRng,
    ra: NormalDraw,
    rb: NormalDraw,
)
    requires
        a.state == b.state,
        a.cached_normal == b.cached_normal,
        normal_step(a, a_after, ra),
        normal_step(b, b_after, rb),
    ensures
        ra == rb,
        a_after.state == b_after.state,
        a_after.cached_normal == b_after.cached_normal,
{
}

} // verus!
