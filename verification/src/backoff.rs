//! How long to wait before trying again.

use vstd::arithmetic::power2::{lemma_pow2_strictly_increases, lemma_pow2_unfold, pow2};
use vstd::prelude::*;

verus! {

/// The number of failures at which the wait no longer fits.
pub const MAX_FAILURES: u32 = 64;

/// The seconds to wait after so many failures: two to that power.
pub fn backoff_secs(failures: u32) -> (r: u64)
    requires
        failures < MAX_FAILURES,
    ensures
        r == pow2(failures as nat),
{
    let mut secs: u64 = 1;
    let mut i: u32 = 0;
    proof {
        reveal(vstd::arithmetic::power::pow);
        assert(pow2(0) == 1);
        law_wait_fits(failures as nat);
    }
    while i < failures
        invariant
            i <= failures,
            failures < MAX_FAILURES,
            secs == pow2(i as nat),
        decreases failures - i,
    {
        proof {
            law_wait_fits((i + 1) as nat);
            lemma_pow2_unfold((i + 1) as nat);
        }
        secs = secs * 2;
        i = i + 1;
    }
    secs
}

/// A wait after fewer than `MAX_FAILURES` failures fits in 64 bits.
pub proof fn law_wait_fits(failures: nat)
    requires
        failures < MAX_FAILURES,
    ensures
        pow2(failures) <= u64::MAX,
{
    vstd::arithmetic::power2::lemma2_to64_rest();
    if failures < 63 {
        lemma_pow2_strictly_increases(failures, 63);
    }
    assert(pow2(63) == 0x8000000000000000);
}

/// Each further failure doubles the wait.
pub proof fn law_wait_doubles(failures: nat)
    ensures
        pow2(failures + 1) == 2 * pow2(failures),
{
    lemma_pow2_unfold(failures + 1);
}

} // verus!
