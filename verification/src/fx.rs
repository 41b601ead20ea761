//! Fixed-point arithmetic with sixteen fractional bits.
//!
//! A value of `1.0` is stored as `FX_ONE == 65536`. Products and quotients
//! are rounded toward zero, like the hardware rounding of the host's own
//! integer division.

use vstd::prelude::*;

verus! {

/// The fixed-point rendering of one: sixteen fractional bits.
pub const FX_ONE: i64 = 65536;

/// Product of two fixed-point values, rounded toward zero.
pub open spec fn fx_mul_spec(a: int, b: int) -> int {
    if a * b >= 0 {
        (a * b) / (FX_ONE as int)
    } else {
        -((-(a * b)) / (FX_ONE as int))
    }
}

/// Fixed-point multiplication, rounded toward zero.
pub fn fx_mul(a: i64, b: i64) -> (r: i64)
    requires
        -0x4000_0000_0000_0000 <= a as int * b as int <= 0x4000_0000_0000_0000,
    ensures
        r == fx_mul_spec(a as int, b as int),
{
    proof {
        assert(-0x4000_0000_0000_0000_0000_0000_0000_0000
            <= a as int * b as int
            <= 0x4000_0000_0000_0000_0000_0000_0000_0000) by (nonlinear_arith);
    }
    let p: i128 = (a as i128) * (b as i128);
    if p >= 0 {
        let q: u128 = (p as u128) / 65536;
        q as i64
    } else {
        let q: u128 = ((-p) as u128) / 65536;
        -(q as i64)
    }
}

/// Quotient of two fixed-point values, rounded toward zero; the divisor
/// must be positive.
pub open spec fn fx_div_spec(a: int, b: int) -> int {
    if a >= 0 {
        (a * (FX_ONE as int)) / b
    } else {
        -(((-a) * (FX_ONE as int)) / b)
    }
}

/// Fixed-point division, rounded toward zero.
pub fn fx_div(a: i64, b: i64) -> (r: i64)
    requires
        0 < b,
        -0x4000_0000_0000 <= a <= 0x4000_0000_0000,
    ensures
        r == fx_div_spec(a as int, b as int),
        -b <= a <= b ==> -FX_ONE <= r <= FX_ONE,
        b >= FX_ONE ==> -a <= r <= a || a <= r <= -a,
{
    let n: i128 = (a as i128) * 65536;
    let r: i64 = if n >= 0 {
        let q: u128 = (n as u128) / (b as u128);
        proof {
            assert(n as int / b as int <= n as int) by (nonlinear_arith)
                requires b as int >= 1, n as int >= 0;
        }
        q as i64
    } else {
        let q: u128 = ((-n) as u128) / (b as u128);
        proof {
            assert((-n) as int / b as int <= (-n) as int) by (nonlinear_arith)
                requires b as int >= 1, (-n) as int >= 0;
        }
        -(q as i64)
    };
    proof {
        if -b <= a <= b {
            assert(a >= 0 ==> (a as int * 65536) / (b as int) <= 65536) by (nonlinear_arith)
                requires 0 < b as int, a <= b;
            assert(a < 0 ==> ((-a) as int * 65536) / (b as int) <= 65536) by (nonlinear_arith)
                requires 0 < b as int, -(a as int) <= b as int;
        }
        if b >= FX_ONE {
            if a >= 0 {
                assert((a as int * 65536) / (b as int) <= a) by (nonlinear_arith)
                    requires b as int >= 65536, a >= 0;
            } else {
                assert(((-a) as int * 65536) / (b as int) <= -(a as int)) by (nonlinear_arith)
                    requires b as int >= 65536, a < 0;
            }
        }
    }
    r
}

/// The integer square root: the greatest `r` with `r * r <= x`.
pub open spec fn sqrt_floor(x: nat) -> nat
    decreases x,
{
    if x == 0 {
        0
    } else {
        let s = sqrt_floor((x - 1) as nat);
        if (s + 1) * (s + 1) <= x {
            s + 1
        } else {
            s
        }
    }
}

pub proof fn lemma_sqrt_floor_bounds(x: nat)
    ensures
        sqrt_floor(x) * sqrt_floor(x) <= x,
        x < (sqrt_floor(x) + 1) * (sqrt_floor(x) + 1),
    decreases x,
{
    if x == 0 {
        assert(sqrt_floor(0) == 0);
        assert(x < (sqrt_floor(x) + 1) * (sqrt_floor(x) + 1)) by (nonlinear_arith)
            requires x == 0, sqrt_floor(x) == 0;
    } else {
        lemma_sqrt_floor_bounds((x - 1) as nat);
        let s = sqrt_floor((x - 1) as nat);
        assert(s * s <= (x - 1) as nat);
        assert(((x - 1) as nat) < (s + 1) * (s + 1));
        if (s + 1) * (s + 1) <= x {
            assert(sqrt_floor(x) == s + 1);
            assert(x < ((s + 1) + 1) * ((s + 1) + 1)) by (nonlinear_arith)
                requires ((x - 1) as nat) < (s + 1) * (s + 1), (s + 1) * (s + 1) <= x, s >= 0;
            assert(x < (sqrt_floor(x) + 1) * (sqrt_floor(x) + 1)) by (nonlinear_arith)
                requires sqrt_floor(x) == s + 1, x < ((s + 1) + 1) * ((s + 1) + 1);
        } else {
            assert(sqrt_floor(x) == s);
            assert(x < (sqrt_floor(x) + 1) * (sqrt_floor(x) + 1)) by (nonlinear_arith)
                requires sqrt_floor(x) == s, x < (s + 1) * (s + 1);
        }
    }
}

/// The bounds `r * r <= x < (r + 1) * (r + 1)` pin the square root down.
pub proof fn lemma_sqrt_floor_unique(x: nat, r: nat)
    requires
        r * r <= x,
        x < (r + 1) * (r + 1),
    ensures
        r == sqrt_floor(x),
{
    lemma_sqrt_floor_bounds(x);
    let s = sqrt_floor(x);
    if r < s {
        assert(false) by (nonlinear_arith)
            requires r + 1 <= s, s * s <= x, x < (r + 1) * (r + 1), r >= 0, s >= 0;
    }
    if s < r {
        assert(false) by (nonlinear_arith)
            requires s + 1 <= r, r * r <= x, x < (s + 1) * (s + 1), r >= 0, s >= 0;
    }
}

pub proof fn lemma_sqrt_floor_mono(x: nat, y: nat)
    requires
        x <= y,
    ensures
        sqrt_floor(x) <= sqrt_floor(y),
{
    lemma_sqrt_floor_bounds(x);
    lemma_sqrt_floor_bounds(y);
    let sx = sqrt_floor(x);
    let sy = sqrt_floor(y);
    if sy < sx {
        assert(false) by (nonlinear_arith)
            requires sy + 1 <= sx, sx * sx <= x, x <= y, y < (sy + 1) * (sy + 1), sx >= 0, sy >= 0;
    }
}

/// Integer square root by binary search.
pub fn isqrt(x: u64) -> (r: u64)
    ensures
        r as nat == sqrt_floor(x as nat),
        r <= 0xFFFF_FFFF,
        r as int * r as int <= x as int,
        (x as int) < (r as int + 1) * (r as int + 1),
{
    let mut lo: u64 = 0;
    let mut hi: u64 = 0x1_0000_0000;
    proof {
        assert((0x1_0000_0000 as int) * (0x1_0000_0000 as int) > x as int) by (nonlinear_arith)
            requires x as int <= 0xFFFF_FFFF_FFFF_FFFF;
    }
    while lo + 1 < hi
        invariant
            lo < hi <= 0x1_0000_0000,
            lo as int * lo as int <= x as int,
            (x as int) < hi as int * hi as int,
        decreases hi - lo,
    {
        let mid: u64 = lo + (hi - lo) / 2;
        proof {
            assert(mid as int * mid as int <= 0xFFFF_FFFF_0000_0000) by (nonlinear_arith)
                requires mid as int <= 0xFFFF_FFFF;
        }
        if mid * mid <= x {
            lo = mid;
        } else {
            hi = mid;
        }
    }
    proof {
        lemma_sqrt_floor_unique(x as nat, lo as nat);
    }
    lo
}

pub proof fn lemma_fx_mul_nonneg(a: int, b: int)
    requires
        0 <= a,
        0 <= b,
    ensures
        0 <= fx_mul_spec(a, b),
{
    assert(a * b >= 0) by (nonlinear_arith)
        requires a >= 0, b >= 0;
}

/// Multiplying by a factor of at most one never grows a value.
pub proof fn lemma_fx_mul_unit(a: int, b: int)
    requires
        0 <= a,
        0 <= b <= FX_ONE as int,
    ensures
        0 <= fx_mul_spec(a, b) <= a,
{
    assert(0 <= a * b && a * b <= a * 65536) by (nonlinear_arith)
        requires a >= 0, 0 <= b <= 65536;
    assert((a * b) / 65536 <= (a * 65536) / 65536) by (nonlinear_arith)
        requires a * b <= a * 65536;
    assert((a * 65536) / 65536 == a);
}

/// Multiplying by a factor of at most two at most doubles a value.
pub proof fn lemma_fx_mul_double(a: int, b: int)
    requires
        0 <= a,
        0 <= b <= 2 * FX_ONE as int,
    ensures
        0 <= fx_mul_spec(a, b) <= 2 * a,
{
    assert(0 <= a * b && a * b <= a * 131072) by (nonlinear_arith)
        requires a >= 0, 0 <= b <= 131072;
    assert((a * b) / 65536 <= (a * 131072) / 65536) by (nonlinear_arith)
        requires a * b <= a * 131072;
    assert((a * 131072) / 65536 == 2 * a) by (nonlinear_arith);
}

/// The product is monotone in both operands, for non-negative operands.
pub proof fn lemma_fx_mul_mono(a1: int, a2: int, b1: int, b2: int)
    requires
        0 <= a1 <= a2,
        0 <= b1 <= b2,
    ensures
        fx_mul_spec(a1, b1) <= fx_mul_spec(a2, b2),
{
    assert(0 <= a1 * b1 && a1 * b1 <= a2 * b2) by (nonlinear_arith)
        requires 0 <= a1 <= a2, 0 <= b1 <= b2;
    assert((a1 * b1) / 65536 <= (a2 * b2) / 65536) by (nonlinear_arith)
        requires a1 * b1 <= a2 * b2;
}

/// The fixed-point square root: sixteen fractional bits are restored by
/// widening before the integer root.
pub open spec fn fx_sqrt_spec(x: int) -> int {
    sqrt_floor((x * 65536) as nat) as int
}

pub proof fn lemma_fx_sqrt_le_one(x: int)
    requires
        0 <= x <= FX_ONE as int,
    ensures
        0 <= fx_sqrt_spec(x) <= FX_ONE as int,
{
    lemma_sqrt_floor_mono((x * 65536) as nat, 0x1_0000_0000 as nat);
    assert(65536 * 65536 == 0x1_0000_0000 && 65537 * 65537 == 0x1_0002_0001) by (nonlinear_arith);
    lemma_sqrt_floor_unique(0x1_0000_0000 as nat, 65536 as nat);
}

pub proof fn lemma_fx_sqrt_mono(x: int, y: int)
    requires
        0 <= x <= y,
    ensures
        0 <= fx_sqrt_spec(x) <= fx_sqrt_spec(y),
{
    lemma_sqrt_floor_mono((x * 65536) as nat, (y * 65536) as nat);
}

/// Fixed-point square root.
pub fn fx_sqrt(x: i64) -> (r: i64)
    requires
        0 <= x <= 0x7FFF_FFFF_FFFF,
    ensures
        r == fx_sqrt_spec(x as int),
        0 <= r <= 0xFFFF_FFFF,
        x <= FX_ONE ==> r <= FX_ONE,
        x <= 2 * FX_ONE ==> r <= 92681,
{
    let xx: u64 = (x as u64) * 65536;
    let r: u64 = isqrt(xx);
    proof {
        if x <= FX_ONE {
            lemma_fx_sqrt_le_one(x as int);
        }
        if x <= 2 * FX_ONE {
            lemma_sqrt_floor_mono(xx as nat, 0x2_0000_0000 as nat);
            assert(92681 * 92681 <= 0x2_0000_0000 && 0x2_0000_0000 < 92682 * 92682) by (nonlinear_arith);
            lemma_sqrt_floor_unique(0x2_0000_0000 as nat, 92681 as nat);
        }
    }
    r as i64
}

/// Fixed-point power with a natural exponent, by repeated multiplication.
pub open spec fn fx_pow_int_spec(x: int, n: nat) -> int
    decreases n,
{
    if n == 0 {
        FX_ONE as int
    } else {
        fx_mul_spec(fx_pow_int_spec(x, (n - 1) as nat), x)
    }
}

pub proof fn lemma_fx_pow_int_unit(x: int, n: nat)
    requires
        0 <= x <= FX_ONE as int,
    ensures
        0 <= fx_pow_int_spec(x, n) <= FX_ONE as int,
    decreases n,
{
    if n > 0 {
        lemma_fx_pow_int_unit(x, (n - 1) as nat);
        lemma_fx_mul_unit(fx_pow_int_spec(x, (n - 1) as nat), x);
    }
}

pub proof fn lemma_fx_pow_int_mono(x1: int, x2: int, n: nat)
    requires
        0 <= x1 <= x2,
    ensures
        0 <= fx_pow_int_spec(x1, n) <= fx_pow_int_spec(x2, n),
    decreases n,
{
    if n > 0 {
        lemma_fx_pow_int_mono(x1, x2, (n - 1) as nat);
        lemma_fx_mul_mono(fx_pow_int_spec(x1, (n - 1) as nat), fx_pow_int_spec(x2, (n - 1) as nat), x1, x2);
    }
}

fn fx_pow_int(x: i64, n: u64) -> (r: i64)
    requires
        0 <= x <= FX_ONE,
    ensures
        r == fx_pow_int_spec(x as int, n as nat),
        0 <= r <= FX_ONE,
{
    let mut acc: i64 = FX_ONE;
    let mut i: u64 = 0;
    while i < n
        invariant
            i <= n,
            0 <= x <= FX_ONE,
            acc == fx_pow_int_spec(x as int, i as nat),
            0 <= acc <= FX_ONE,
        decreases n - i,
    {
        proof {
            lemma_fx_mul_unit(acc as int, x as int);
        }
        acc = fx_mul(acc, x);
        i = i + 1;
    }
    acc
}

/// The square-root chain: `x` raised to the power `1 / 2^k`.
pub open spec fn fx_sqrt_chain(x: int, k: nat) -> int
    decreases k,
{
    if k == 0 {
        x
    } else {
        fx_sqrt_spec(fx_sqrt_chain(x, (k - 1) as nat))
    }
}

/// The fractional power: `x` raised to `m / 2^k`, one square-root chain
/// factor for each set bit of `m`, highest bit folded in first.
pub open spec fn fx_frac_pow_spec(x: int, m: nat, k: nat) -> int
    decreases k,
{
    if k == 0 {
        FX_ONE as int
    } else if m % 2 == 0 {
        fx_frac_pow_spec(x, m / 2, (k - 1) as nat)
    } else {
        fx_mul_spec(fx_frac_pow_spec(x, m / 2, (k - 1) as nat), fx_sqrt_chain(x, k))
    }
}

/// One level of the fractional power: take the next square root and fold
/// it into the accumulator when its bit of the exponent is set.
fn frac_pow_step(x: i64, m: u64, s_prev: i64, acc_prev: i64, d: u64, k: Ghost<nat>) -> (r: (i64, i64))
    requires
        0 <= x <= 2 * FX_ONE,
        0 <= s_prev <= 2 * FX_ONE,
        0 <= acc_prev <= 0x1_0000_0000,
        1 <= d <= 32768,
        m < 65536,
        k@ >= 1,
        s_prev == fx_sqrt_chain(x as int, (k@ - 1) as nat),
        acc_prev == fx_frac_pow_spec(x as int, ((m as int) / (2 * (d as int))) as nat, (k@ - 1) as nat),
    ensures
        r.0 == fx_sqrt_chain(x as int, k@),
        0 <= r.0 <= 92681,
        s_prev <= FX_ONE ==> r.0 <= FX_ONE,
        r.1 == fx_frac_pow_spec(x as int, (m / d) as nat, k@),
        0 <= r.1 <= 2 * acc_prev,
        s_prev <= FX_ONE && acc_prev <= FX_ONE ==> r.1 <= FX_ONE,
{
    let s: i64 = fx_sqrt(s_prev);
    let acc: i64 = if (m / d) % 2 == 1 {
        proof {
            lemma_fx_mul_double(acc_prev as int, s as int);
            if s <= FX_ONE && acc_prev <= FX_ONE {
                lemma_fx_mul_unit(acc_prev as int, s as int);
            }
        }
        fx_mul(acc_prev, s)
    } else {
        acc_prev
    };
    proof {
        vstd::arithmetic::div_mod::lemma_div_denominator(m as int, d as int, 2);
        assert(((m / d) as nat) / 2 == ((m as int) / (2 * (d as int))) as nat);
    }
    (s, acc)
}

/// Fixed-point power with a fixed-point exponent: the whole part by
/// repeated multiplication, the fractional part by square-root chains.
pub open spec fn fx_pow_spec(x: int, e: int) -> int {
    fx_mul_spec(fx_pow_int_spec(x, (e / 65536) as nat), fx_frac_pow_spec(x, (e % 65536) as nat, 16))
}

/// Fixed-point power. A base above one is only taken to an exponent of at
/// most one (the boost factors raise a small base to the tick length).
pub fn fx_pow(x: i64, e: i64) -> (r: i64)
    requires
        0 <= x <= 2 * FX_ONE,
        0 <= e <= 200 * FX_ONE,
        x > FX_ONE ==> e <= FX_ONE,
    ensures
        r == fx_pow_spec(x as int, e as int),
        0 <= r <= 0x4_0000_0000,
        x <= FX_ONE ==> r <= FX_ONE,
{
    let n: u64 = (e as u64) / 65536;
    let m: u64 = (e as u64) % 65536;
    let ip: i64 = if x <= FX_ONE {
        fx_pow_int(x, n)
    } else if n == 0 {
        FX_ONE
    } else {
        proof {
            assert(fx_pow_int_spec(x as int, 0) == FX_ONE as int);
        }
        fx_mul(FX_ONE, x)
    };
    assert(ip == fx_pow_int_spec(x as int, n as nat));
    assert(0 <= ip <= 2 * FX_ONE);
    let (s1, a1) = frac_pow_step(x, m, x, FX_ONE, 32768, Ghost(1));
    let (s2, a2) = frac_pow_step(x, m, s1, a1, 16384, Ghost(2));
    let (s3, a3) = frac_pow_step(x, m, s2, a2, 8192, Ghost(3));
    let (s4, a4) = frac_pow_step(x, m, s3, a3, 4096, Ghost(4));
    let (s5, a5) = frac_pow_step(x, m, s4, a4, 2048, Ghost(5));
    let (s6, a6) = frac_pow_step(x, m, s5, a5, 1024, Ghost(6));
    let (s7, a7) = frac_pow_step(x, m, s6, a6, 512, Ghost(7));
    let (s8, a8) = frac_pow_step(x, m, s7, a7, 256, Ghost(8));
    let (s9, a9) = frac_pow_step(x, m, s8, a8, 128, Ghost(9));
    let (s10, a10) = frac_pow_step(x, m, s9, a9, 64, Ghost(10));
    let (s11, a11) = frac_pow_step(x, m, s10, a10, 32, Ghost(11));
    let (s12, a12) = frac_pow_step(x, m, s11, a11, 16, Ghost(12));
    let (s13, a13) = frac_pow_step(x, m, s12, a12, 8, Ghost(13));
    let (s14, a14) = frac_pow_step(x, m, s13, a13, 4, Ghost(14));
    let (s15, a15) = frac_pow_step(x, m, s14, a14, 2, Ghost(15));
    let (s16, a16) = frac_pow_step(x, m, s15, a15, 1, Ghost(16));
    proof {
        lemma_fx_mul_nonneg(ip as int, a16 as int);
        lemma_fx_mul_mono(ip as int, 2 * FX_ONE as int, a16 as int, 0x1_0000_0000);
        assert(fx_mul_spec(2 * FX_ONE as int, 0x1_0000_0000) == 0x2_0000_0000);
        if x <= FX_ONE {
            lemma_fx_mul_unit(ip as int, a16 as int);
            lemma_fx_mul_mono(ip as int, FX_ONE as int, a16 as int, a16 as int);
        }
    }
    fx_mul(ip, a16)
}

/// One is the multiplicative unit, exactly.
pub proof fn lemma_fx_mul_one_left(b: int)
    ensures
        fx_mul_spec(FX_ONE as int, b) == b,
{
    if b >= 0 {
        assert((65536 * b) / 65536 == b) by (nonlinear_arith);
    } else {
        assert(65536 * b < 0 && (-(65536 * b)) / 65536 == -b) by (nonlinear_arith)
            requires b < 0;
    }
}

pub proof fn lemma_fx_sqrt_chain_le_one(x: int, k: nat)
    requires
        0 <= x <= FX_ONE as int,
    ensures
        0 <= fx_sqrt_chain(x, k) <= FX_ONE as int,
    decreases k,
{
    if k > 0 {
        lemma_fx_sqrt_chain_le_one(x, (k - 1) as nat);
        lemma_fx_sqrt_le_one(fx_sqrt_chain(x, (k - 1) as nat));
    }
}

pub proof fn lemma_fx_sqrt_chain_mono(x: int, y: int, k: nat)
    requires
        0 <= x <= y,
    ensures
        0 <= fx_sqrt_chain(x, k) <= fx_sqrt_chain(y, k),
    decreases k,
{
    if k > 0 {
        lemma_fx_sqrt_chain_mono(x, y, (k - 1) as nat);
        lemma_fx_sqrt_mono(fx_sqrt_chain(x, (k - 1) as nat), fx_sqrt_chain(y, (k - 1) as nat));
    }
}

pub proof fn lemma_fx_frac_pow_le_one(x: int, m: nat, k: nat)
    requires
        0 <= x <= FX_ONE as int,
    ensures
        0 <= fx_frac_pow_spec(x, m, k) <= FX_ONE as int,
    decreases k,
{
    if k > 0 {
        lemma_fx_frac_pow_le_one(x, m / 2, (k - 1) as nat);
        if m % 2 == 1 {
            lemma_fx_sqrt_chain_le_one(x, k);
            lemma_fx_mul_unit(fx_frac_pow_spec(x, m / 2, (k - 1) as nat), fx_sqrt_chain(x, k));
        }
    }
}

pub proof fn lemma_fx_frac_pow_mono(x: int, y: int, m: nat, k: nat)
    requires
        0 <= x <= y <= FX_ONE as int,
    ensures
        fx_frac_pow_spec(x, m, k) <= fx_frac_pow_spec(y, m, k),
    decreases k,
{
    if k > 0 {
        lemma_fx_frac_pow_mono(x, y, m / 2, (k - 1) as nat);
        if m % 2 == 1 {
            lemma_fx_frac_pow_le_one(x, m / 2, (k - 1) as nat);
            lemma_fx_frac_pow_le_one(y, m / 2, (k - 1) as nat);
            lemma_fx_sqrt_chain_le_one(x, k);
            lemma_fx_sqrt_chain_le_one(y, k);
            lemma_fx_sqrt_chain_mono(x, y, k);
            lemma_fx_mul_mono(
                fx_frac_pow_spec(x, m / 2, (k - 1) as nat),
                fx_frac_pow_spec(y, m / 2, (k - 1) as nat),
                fx_sqrt_chain(x, k),
                fx_sqrt_chain(y, k),
            );
        }
    }
}

/// A base of at most one keeps every power at most one.
pub proof fn lemma_fx_pow_le_one(x: int, e: int)
    requires
        0 <= x <= FX_ONE as int,
        0 <= e,
    ensures
        0 <= fx_pow_spec(x, e) <= FX_ONE as int,
{
    lemma_fx_pow_int_unit(x, (e / 65536) as nat);
    lemma_fx_frac_pow_le_one(x, (e % 65536) as nat, 16);
    lemma_fx_mul_unit(fx_pow_int_spec(x, (e / 65536) as nat), fx_frac_pow_spec(x, (e % 65536) as nat, 16));
    lemma_fx_mul_mono(
        fx_pow_int_spec(x, (e / 65536) as nat),
        FX_ONE as int,
        fx_frac_pow_spec(x, (e % 65536) as nat, 16),
        fx_frac_pow_spec(x, (e % 65536) as nat, 16),
    );
}

/// The power grows with its base, for bases of at most one.
pub proof fn lemma_fx_pow_mono(x: int, y: int, e: int)
    requires
        0 <= x <= y <= FX_ONE as int,
        0 <= e,
    ensures
        fx_pow_spec(x, e) <= fx_pow_spec(y, e),
{
    lemma_fx_pow_int_mono(x, y, (e / 65536) as nat);
    lemma_fx_pow_int_unit(x, (e / 65536) as nat);
    lemma_fx_pow_int_unit(y, (e / 65536) as nat);
    lemma_fx_frac_pow_le_one(x, (e % 65536) as nat, 16);
    lemma_fx_frac_pow_le_one(y, (e % 65536) as nat, 16);
    lemma_fx_frac_pow_mono(x, y, (e % 65536) as nat, 16);
    lemma_fx_mul_mono(
        fx_pow_int_spec(x, (e / 65536) as nat),
        fx_pow_int_spec(y, (e / 65536) as nat),
        fx_frac_pow_spec(x, (e % 65536) as nat, 16),
        fx_frac_pow_spec(y, (e % 65536) as nat, 16),
    );
}

proof fn lemma_fx_pow_int_zero_base(n: nat)
    requires
        1 <= n,
    ensures
        fx_pow_int_spec(0, n) == 0,
    decreases n,
{
    if n > 1 {
        lemma_fx_pow_int_zero_base((n - 1) as nat);
    }
}

/// A zero base with an exponent of at least one gives zero.
pub proof fn lemma_fx_pow_zero_base(e: int)
    requires
        FX_ONE as int <= e,
    ensures
        fx_pow_spec(0, e) == 0,
{
    lemma_fx_pow_int_zero_base((e / 65536) as nat);
}

} // verus!
