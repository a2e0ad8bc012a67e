//! Integer helpers of the FFT fallback matcher.
use vstd::prelude::*;
use vstd::arithmetic::power2::{pow2, lemma_pow2_unfold, lemma_pow2_pos};

verus! {

/// The smallest power of two that is at least `n` (1 for 0 and 1).
pub open spec fn is_next_power_of_two(n: int, p: int) -> bool {
    exists|k: nat| p == #[trigger] pow2(k) && n <= p && (k == 0 || pow2((k - 1) as nat) < n)
}

/// Padding size for the FFT: the smallest power of two not below `n`.
pub fn next_power_of_two(n: usize) -> (p: usize)
    requires
        n <= usize::MAX / 2 + 1,
    ensures
        is_next_power_of_two(n as int, p as int),
{
    let mut p: usize = 1;
    let ghost mut k: nat = 0;
    proof {
        vstd::arithmetic::power2::lemma2_to64();
    }
    while p < n
        invariant
            n <= usize::MAX / 2 + 1,
            p == pow2(k),
            p >= 1,
            k == 0 || pow2((k - 1) as nat) < n,
        decreases usize::MAX - p,
    {
        proof {
            lemma_pow2_unfold(k + 1);
        }
        p = p * 2;
        proof {
            k = k + 1;
        }
    }
    assert(p == pow2(k) && n <= p && (k == 0 || pow2((k - 1) as nat) < n));
    p
}

/// The shift a correlation peak at index `peak` of a cyclic axis of length
/// `size` stands for: past the middle it wraps to a negative shift.
pub fn signed_shift(peak: usize, size: usize) -> (res: i32)
    requires
        peak <= i32::MAX,
        size <= i32::MAX,
    ensures
        res == (if peak > size / 2 { peak - size } else { peak as int }),
{
    if peak > size / 2 {
        peak as i32 - size as i32
    } else {
        peak as i32
    }
}

} // verus!
