use vstd::prelude::*;

verus! {

/// One step of the C-runtime linear-congruential generator, modulo 2^32.
pub open spec fn crt_step(state: u32) -> u32 {
    ((state as int * 0x343FD + 0x269EC3) % 0x1_0000_0000) as u32
}

/// The value drawn from a generator whose state has just become `state`.
pub open spec fn crt_output(state: u32) -> u32 {
    (state / 0x10000) % 0x8000
}

/// The state after `n` draws from `seed`.
pub open spec fn crt_state_after(seed: u32, n: nat) -> u32
    decreases n,
{
    if n == 0 {
        seed
    } else {
        crt_step(crt_state_after(seed, (n - 1) as nat))
    }
}

/// The first `n` values drawn from a generator seeded with `seed`.
pub open spec fn crt_outputs(seed: u32, n: nat) -> Seq<u32>
    decreases n,
{
    if n == 0 {
        Seq::empty()
    } else {
        crt_outputs(seed, (n - 1) as nat).push(crt_output(crt_state_after(seed, n)))
    }
}

/// The deterministic keystream that fills ticket padding.
pub struct CrtRand {
    seed: u32,
}

impl CrtRand {
    pub closed spec fn state(&self) -> u32 {
        self.seed
    }

    pub fn new(seed: u32) -> (r: Self)
        ensures
            r.state() == seed,
    {
        Self { seed }
    }

    pub fn next(&mut self) -> (r: u32)
        ensures
            final(self).state() == crt_step(old(self).state()),
            r == crt_output(final(self).state()),
            r <= 0x7FFF,
    {
        let prod: u64 = 0x343FDu64 * (self.seed as u64);
        let s: u64 = (prod + 0x269EC3u64) % 0x1_0000_0000u64;
        self.seed = s as u32;
        let st: u32 = self.seed;
        let r: u32 = (st >> 16u32) & 0x7FFFu32;
        assert(r == (st / 0x10000) % 0x8000 && r <= 0x7FFF) by (bit_vector)
            requires
                r == (st >> 16u32) & 0x7FFFu32,
        ;
        r
    }
}

/// The keystream is a function of the seed alone (`crt_outputs`, which `next`
/// follows step by step), and every value of it lies in `0..=0x7FFF`.
pub proof fn lemma_keystream_deterministic(seed: u32, n: nat)
    ensures
        crt_outputs(seed, n).len() == n,
        forall|i: int| 0 <= i < n ==> #[trigger] crt_outputs(seed, n)[i] <= 0x7FFF,
    decreases n,
{
    if n > 0 {
        lemma_keystream_deterministic(seed, (n - 1) as nat);
        assert(crt_output(crt_state_after(seed, n)) <= 0x7FFF);
    }
}

} // verus!
