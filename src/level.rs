use vstd::prelude::*;

verus! {

/// Loudness is the root mean square of the 16-bit samples, multiplied by this
/// factor and rounded down. A full-scale sine wave therefore reads about
/// 2_317_000; one unit of the classic "x100 of normalised RMS" scale is
/// exactly 32768 units here.
pub const LOUDNESS_SCALE: u64 = 100;

/// Integer square root: the largest `r` with `r * r <= x`.
pub open spec fn isqrt(x: nat) -> nat
    decreases x,
{
    if x == 0 {
        0
    } else {
        let r = isqrt((x - 1) as nat);
        if (r + 1) * (r + 1) <= x {
            r + 1
        } else {
            r
        }
    }
}

pub open spec fn sum_squares(s: Seq<i16>) -> nat
    decreases s.len(),
{
    if s.len() == 0 {
        0
    } else {
        sum_squares(s.drop_last()) + (s.last() as int * s.last() as int) as nat
    }
}

/// The scaled mean square of a block, rounded down.
pub open spec fn scaled_mean_square(s: Seq<i16>) -> nat {
    if s.len() == 0 {
        0
    } else {
        ((LOUDNESS_SCALE * LOUDNESS_SCALE * sum_squares(s)) as int / s.len() as int) as nat
    }
}

/// The loudness of a block: `floor(SCALE * sqrt(mean(sample^2)))`, and 0 for an empty block.
pub open spec fn loudness(s: Seq<i16>) -> nat {
    isqrt(scaled_mean_square(s))
}

pub proof fn lemma_isqrt_bounds(x: nat)
    ensures
        isqrt(x) * isqrt(x) <= x,
        x < (isqrt(x) + 1) * (isqrt(x) + 1),
    decreases x,
{
    if x == 0 {
        assert(isqrt(0) == 0);
        let q = isqrt(x);
        assert(q == 0);
        assert(q * q == 0 && (q + 1) * (q + 1) == 1) by (nonlinear_arith)
            requires
                q == 0,
        ;
    } else {
        lemma_isqrt_bounds((x - 1) as nat);
        let r = isqrt((x - 1) as nat);
        if (r + 1) * (r + 1) <= x {
            let q = r + 1;
            assert(isqrt(x) == q);
            assert(x < (q + 1) * (q + 1)) by (nonlinear_arith)
                requires
                    x - 1 < (r + 1) * (r + 1),
                    q == r + 1,
            ;
        } else {
            assert(isqrt(x) == r);
            assert(r * r <= x);
            assert(x < (r + 1) * (r + 1));
        }
    }
}

/// Any `r` with `r^2 <= x < (r+1)^2` is the integer square root of `x`.
pub proof fn lemma_isqrt_unique(x: nat, r: nat)
    requires
        r * r <= x,
        x < (r + 1) * (r + 1),
    ensures
        isqrt(x) == r,
{
    lemma_isqrt_bounds(x);
    let q = isqrt(x);
    if q < r {
        assert((q + 1) * (q + 1) <= r * r) by (nonlinear_arith)
            requires
                q + 1 <= r,
        ;
    } else if r < q {
        assert((r + 1) * (r + 1) <= q * q) by (nonlinear_arith)
            requires
                r + 1 <= q,
        ;
    }
}

proof fn lemma_square_bound(v: i16)
    ensures
        0 <= v as int * v as int <= 0x4000_0000,
{
    assert(0 <= v as int * v as int <= 0x4000_0000) by (nonlinear_arith)
        requires
            -32768 <= v as int <= 32767,
    ;
}

proof fn lemma_sum_squares_bound(s: Seq<i16>)
    ensures
        sum_squares(s) <= s.len() * 0x4000_0000,
    decreases s.len(),
{
    if s.len() > 0 {
        lemma_sum_squares_bound(s.drop_last());
        lemma_square_bound(s.last());
    }
}

/// The largest `r` with `r * r <= x`, by bisection.
pub fn integer_sqrt(x: u64) -> (r: u64)
    requires
        x < 0x4000_0000_0000_0000,
    ensures
        r == isqrt(x as nat),
{
    let mut lo: u64 = 0;
    let mut hi: u64 = 0x8000_0000;
    assert(x < hi * hi);
    while hi - lo > 1
        invariant
            lo < hi <= 0x8000_0000,
            lo * lo <= x,
            x < hi * hi,
        decreases hi - lo,
    {
        let mid: u64 = lo + (hi - lo) / 2;
        assert(mid * mid <= 0x4000_0000_0000_0000) by (nonlinear_arith)
            requires
                mid < 0x8000_0000,
        ;
        if mid * mid <= x {
            lo = mid;
        } else {
            hi = mid;
        }
    }
    assert(hi == lo + 1);
    proof {
        lemma_isqrt_unique(x as nat, lo as nat);
    }
    lo
}

/// Loudness of one block of samples: `floor(LOUDNESS_SCALE * sqrt(mean(sample^2)))`,
/// 0 for an empty block.
pub fn calculate_rms(samples: &[i16]) -> (r: u64)
    ensures
        r == loudness(samples@),
{
    let n = samples.len();
    if n == 0 {
        proof {
            assert(isqrt(0) == 0);
        }
        return 0;
    }
    let mut sum: u128 = 0;
    let mut i: usize = 0;
    while i < n
        invariant
            n == samples@.len(),
            0 <= i <= n,
            sum == sum_squares(samples@.subrange(0, i as int)),
            sum <= i * 0x4000_0000,
        decreases n - i,
    {
        let v = samples[i];
        proof {
            lemma_square_bound(v);
            let pre = samples@.subrange(0, i as int);
            let next = samples@.subrange(0, i + 1);
            assert(next.drop_last() =~= pre);
        }
        let sq: u128 = (v as i32 * v as i32) as u128;
        sum = sum + sq;
        i = i + 1;
    }
    proof {
        assert(samples@.subrange(0, n as int) =~= samples@);
        lemma_sum_squares_bound(samples@);
        assert(10000 * sum / (n as int) <= 10000 * 0x4000_0000) by (nonlinear_arith)
            requires
                sum <= n * 0x4000_0000,
                n > 0,
        ;
    }
    let mean: u128 = (LOUDNESS_SCALE as u128) * (LOUDNESS_SCALE as u128) * sum / (n as u128);
    integer_sqrt(mean as u64)
}

/// A block of silence has loudness 0.
pub proof fn lemma_silence_is_quiet(s: Seq<i16>)
    requires
        forall|i: int| 0 <= i < s.len() ==> s[i] == 0,
    ensures
        loudness(s) == 0,
{
    lemma_sum_squares_const(s, 0);
    assert(isqrt(0) == 0);
}

proof fn lemma_sum_squares_const(s: Seq<i16>, a: i16)
    requires
        forall|i: int| 0 <= i < s.len() ==> s[i] == a,
    ensures
        sum_squares(s) == s.len() * (a as int * a as int),
    decreases s.len(),
{
    if s.len() > 0 {
        assert forall|i: int| 0 <= i < s.drop_last().len() implies s.drop_last()[i] == a by {
            assert(s.drop_last()[i] == s[i]);
        }
        lemma_sum_squares_const(s.drop_last(), a);
        assert(s.last() == a);
        lemma_square_bound(a);
        assert(s.len() * (a as int * a as int) == (s.len() - 1) * (a as int * a as int) + (a as int
            * a as int)) by (nonlinear_arith);
    }
}

/// A block whose samples all equal `a` has loudness exactly `|a| * LOUDNESS_SCALE`.
pub proof fn lemma_constant_block_loudness(s: Seq<i16>, a: i16)
    requires
        s.len() > 0,
        forall|i: int| 0 <= i < s.len() ==> s[i] == a,
    ensures
        loudness(s) == (if a < 0 { -(a as int) } else { a as int }) * LOUDNESS_SCALE,
{
    lemma_sum_squares_const(s, a);
    let m: int = if a < 0 { -(a as int) } else { a as int };
    let n = s.len() as int;
    let sq = a as int * a as int;
    assert(sq == m * m) by (nonlinear_arith)
        requires
            sq == a as int * a as int,
            m == (if a < 0 { -(a as int) } else { a as int }),
    ;
    assert(10000 * (n * sq) / n == 10000 * sq) by (nonlinear_arith)
        requires
            n > 0,
    ;
    let r = (m * 100) as nat;
    assert(10000 * sq == r * r) by (nonlinear_arith)
        requires
            sq == m * m,
            r == m * 100,
    ;
    assert(r * r < (r + 1) * (r + 1)) by (nonlinear_arith);
    lemma_isqrt_unique(scaled_mean_square(s), r);
}

} // verus!
