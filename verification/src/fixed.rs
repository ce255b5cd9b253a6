//! Fixed-point scalars.
//!
//! The renderer's geometry is carried in signed 16.16 fixed point: an `i64`
//! value `x` stands for the real number `x / FX_ONE`. Every rounding step of
//! the library rounds toward negative infinity, so each operation here has an
//! exact integer specification.
use vstd::prelude::*;

verus! {

/// Scale of the fixed-point scalars: an `i64` value `x` stands for `x / FX_ONE`.
pub const FX_ONE: i64 = 65536;

/// Square of the scale; the divisor after two scaled factors are multiplied.
pub const FX_ONE_SQ: i64 = 65536 * 65536;

/// Fixed-point product of two scaled values, rounded toward negative infinity.
pub open spec fn fx(a: int, b: int) -> int {
    (a * b) / (FX_ONE as int)
}

/// Fixed-point product of three scaled values with a single final rounding.
pub open spec fn fx3s(a: int, b: int, c: int) -> int {
    (a * b * c) / (FX_ONE_SQ as int)
}

/// Fixed-point quotient of two scaled values. The denominator is normalized
/// to be positive, then the quotient is rounded toward negative infinity.
pub open spec fn fxd(a: int, b: int) -> int {
    if b >= 0 {
        (a * FX_ONE as int) / b
    } else {
        ((-a) * FX_ONE as int) / (-b)
    }
}

/// Quotient of `p` and positive `d`, rounded toward negative infinity — the
/// rounding rule every scaled operation of this library uses.
pub fn floor_div_i128(p: i128, d: i128) -> (q: i128)
    requires
        0 < d,
        i128::MIN < p,
    ensures
        q == p as int / d as int,
{
    if p >= 0 {
        let pu: u128 = p as u128;
        let du: u128 = d as u128;
        let q0: u128 = pu / du;
        proof {
            assert(q0 <= pu) by (nonlinear_arith)
                requires
                    q0 == pu as int / du as int,
                    du >= 1,
                    pu >= 0,
            {
                vstd::arithmetic::div_mod::lemma_fundamental_div_mod(pu as int, du as int);
            }
        }
        q0 as i128
    } else {
        let m: u128 = (-p) as u128;
        let du: u128 = d as u128;
        let q0: u128 = m / du;
        let r: u128 = m % du;
        let ghost pi: int = p as int;
        let ghost di: int = d as int;
        let ghost mi: int = m as int;
        let ghost qi: int = q0 as int;
        let ghost ri: int = r as int;
        proof {
            vstd::arithmetic::div_mod::lemma_fundamental_div_mod(mi, di);
            assert(mi == di * qi + ri);
            assert(q0 <= m) by (nonlinear_arith)
                requires
                    mi == di * qi + ri,
                    di >= 1,
                    qi >= 0,
                    ri >= 0,
                    mi == m,
                    qi == q0,
            ;
        }
        if r == 0 {
            proof {
                assert(pi == (-qi) * di + 0) by (nonlinear_arith)
                    requires
                        mi == di * qi + ri,
                        ri == 0,
                        pi == -mi,
                ;
                vstd::arithmetic::div_mod::lemma_fundamental_div_mod_converse(pi, di, -qi, 0);
            }
            -(q0 as i128)
        } else {
            proof {
                assert(pi == (-qi - 1) * di + (di - ri)) by (nonlinear_arith)
                    requires
                        mi == di * qi + ri,
                        pi == -mi,
                ;
                vstd::arithmetic::div_mod::lemma_fundamental_div_mod_converse(
                    pi, di, -qi - 1, di - ri);
            }
            -(q0 as i128) - 1
        }
    }
}

/// Floor division by a positive divisor keeps a symmetric bound, up to one
/// unit of rounding on the negative side.
pub proof fn lemma_floor_div_bounds(x: int, m: int, c: int)
    requires
        0 < c,
        0 <= m,
        -m <= x <= m,
    ensures
        -(m / c) - 1 <= x / c <= m / c,
{
    vstd::arithmetic::div_mod::lemma_div_is_ordered(x, m, c);
    vstd::arithmetic::div_mod::lemma_div_is_ordered(-m, x, c);
    vstd::arithmetic::div_mod::lemma_fundamental_div_mod(m, c);
    let q = m / c;
    let r = m % c;
    if r == 0 {
        assert(-m == (-q) * c + 0) by (nonlinear_arith)
            requires
                m == c * q + r,
                r == 0,
        ;
        vstd::arithmetic::div_mod::lemma_fundamental_div_mod_converse(-m, c, -q, 0);
    } else {
        assert(-m == (-q - 1) * c + (c - r)) by (nonlinear_arith)
            requires
                m == c * q + r,
        ;
        vstd::arithmetic::div_mod::lemma_fundamental_div_mod_converse(-m, c, -q - 1, c - r);
    }
}

/// Bound on a fixed-point product from bounds on its factors.
pub proof fn lemma_fx_bound(a: int, b: int, ba: int, bb: int)
    requires
        -ba <= a <= ba,
        -bb <= b <= bb,
    ensures
        -((ba * bb) / FX_ONE as int) - 1 <= fx(a, b) <= (ba * bb) / FX_ONE as int,
{
    assert(-(ba * bb) <= a * b <= ba * bb && 0 <= ba * bb) by (nonlinear_arith)
        requires
            -ba <= a <= ba,
            -bb <= b <= bb,
    ;
    lemma_floor_div_bounds(a * b, ba * bb, FX_ONE as int);
}

/// Bound on a triple fixed-point product from a shared bound on its factors.
pub proof fn lemma_fx3_bound(a: int, b: int, c: int, bnd: int)
    requires
        -bnd <= a <= bnd,
        -bnd <= b <= bnd,
        -bnd <= c <= bnd,
    ensures
        -((bnd * bnd * bnd) / FX_ONE_SQ as int) - 1 <= fx3s(a, b, c)
            <= (bnd * bnd * bnd) / FX_ONE_SQ as int,
{
    assert(-(bnd * bnd * bnd) <= a * b * c <= bnd * bnd * bnd && 0 <= bnd * bnd * bnd)
        by (nonlinear_arith)
        requires
            -bnd <= a <= bnd,
            -bnd <= b <= bnd,
            -bnd <= c <= bnd,
    ;
    lemma_floor_div_bounds(a * b * c, bnd * bnd * bnd, FX_ONE_SQ as int);
}

/// Multiplying by the unit scale is exact, and a zero factor vanishes.
pub proof fn lemma_fx_unit(a: int)
    ensures
        fx(a, FX_ONE as int) == a,
        fx(FX_ONE as int, a) == a,
        fx(a, 0) == 0,
        fx(0, a) == 0,
{
    vstd::arithmetic::div_mod::lemma_div_multiples_vanish(a, FX_ONE as int);
    vstd::arithmetic::div_mod::lemma_div_of0(FX_ONE as int);
}

/// A triple product with two unit factors is exact, in any argument order.
pub proof fn lemma_fx3_units(x: int)
    ensures
        fx3s(FX_ONE as int, FX_ONE as int, x) == x,
        fx3s(FX_ONE as int, x, FX_ONE as int) == x,
        fx3s(x, FX_ONE as int, FX_ONE as int) == x,
{
    vstd::arithmetic::div_mod::lemma_div_multiples_vanish(x, FX_ONE_SQ as int);
}

/// A triple product with a zero factor vanishes, in any argument order.
pub proof fn lemma_fx3_zero(a: int, b: int)
    ensures
        fx3s(0, a, b) == 0,
        fx3s(a, 0, b) == 0,
        fx3s(a, b, 0) == 0,
{
    vstd::arithmetic::div_mod::lemma_div_of0(FX_ONE_SQ as int);
    assert(0 * a * b == 0 && a * 0 * b == 0 && a * b * 0 == 0) by (nonlinear_arith);
}

/// Fixed-point multiply: `r` is the scaled product of `a` and `b`.
pub fn fx_mul(a: i64, b: i64) -> (r: i64)
    requires
        i64::MIN <= fx(a as int, b as int) <= i64::MAX,
    ensures
        r == fx(a as int, b as int),
{
    proof {
        assert((a as int) * (b as int) > i128::MIN) by (nonlinear_arith)
            requires
                i64::MIN <= a <= i64::MAX,
                i64::MIN <= b <= i64::MAX,
        ;
    }
    let p: i128 = (a as i128) * (b as i128);
    let q: i128 = floor_div_i128(p, FX_ONE as i128);
    q as i64
}

/// Fixed-point product of three scaled values with one final rounding.
pub fn fx_mul3(a: i64, b: i64, c: i64) -> (r: i64)
    requires
        -0x10000000000 <= a <= 0x10000000000,
        -0x10000000000 <= b <= 0x10000000000,
        -0x10000000000 <= c <= 0x10000000000,
        i64::MIN <= fx3s(a as int, b as int, c as int) <= i64::MAX,
    ensures
        r == fx3s(a as int, b as int, c as int),
{
    proof {
        assert(-0x100000000000000000000 <= (a as int) * (b as int) <= 0x100000000000000000000)
            by (nonlinear_arith)
            requires
                -0x10000000000 <= a <= 0x10000000000,
                -0x10000000000 <= b <= 0x10000000000,
        ;
        assert(-0x1000000000000000000000000000000 <= (a as int) * (b as int) * (c as int)
            <= 0x1000000000000000000000000000000) by (nonlinear_arith)
            requires
                -0x100000000000000000000 <= (a as int) * (b as int) <= 0x100000000000000000000,
                -0x10000000000 <= c <= 0x10000000000,
        ;
    }
    let p2: i128 = (a as i128) * (b as i128);
    let p3: i128 = p2 * (c as i128);
    let q: i128 = floor_div_i128(p3, FX_ONE_SQ as i128);
    q as i64
}

/// Fixed-point quotient computed at full width, with no demand that the
/// result fit a scalar.
pub fn fx_div_wide(a: i64, b: i64) -> (q: i128)
    requires
        b != 0,
    ensures
        q == fxd(a as int, b as int),
{
    proof {
        assert(-0x80000000000000000000 <= (a as int) * (FX_ONE as int)
            <= 0x80000000000000000000) by (nonlinear_arith)
            requires
                -0x8000000000000000 <= a <= 0x8000000000000000,
                FX_ONE == 65536,
        ;
    }
    let mut p: i128 = (a as i128) * (FX_ONE as i128);
    let mut dn: i128 = b as i128;
    if dn < 0 {
        p = -p;
        dn = -dn;
    }
    floor_div_i128(p, dn)
}

/// Fixed-point divide: `r` is the scaled quotient of `a` by nonzero `b`.
pub fn fx_div(a: i64, b: i64) -> (r: i64)
    requires
        b != 0,
        i64::MIN <= fxd(a as int, b as int) <= i64::MAX,
    ensures
        r == fxd(a as int, b as int),
{
    let q: i128 = fx_div_wide(a, b);
    q as i64
}

/// Bound on a fixed-point quotient by a positive denominator.
pub proof fn lemma_fxd_bound(a: int, b: int, m: int)
    requires
        1 <= b,
        -m <= a <= m,
        0 <= m,
    ensures
        -(m * FX_ONE as int) - 1 <= fxd(a, b) <= m * FX_ONE as int,
{
    assert(-(m * FX_ONE as int) <= a * FX_ONE as int <= m * FX_ONE as int
        && 0 <= m * FX_ONE as int) by (nonlinear_arith)
        requires
            -m <= a <= m,
            0 <= m,
            FX_ONE == 65536,
    ;
    lemma_floor_div_bounds(a * FX_ONE as int, m * FX_ONE as int, b);
    vstd::arithmetic::div_mod::lemma_div_is_ordered_by_denominator(m * FX_ONE as int, 1, b);
    vstd::arithmetic::div_mod::lemma_div_basics(m * FX_ONE as int);
    assert((m * FX_ONE as int) / b <= m * FX_ONE as int);
}

/// Bound on a fixed-point quotient by any nonzero denominator.
pub proof fn lemma_fxd_bound_any(a: int, b: int, m: int)
    requires
        b != 0,
        -m <= a <= m,
        0 <= m,
    ensures
        -(m * FX_ONE as int) - 1 <= fxd(a, b) <= m * FX_ONE as int,
{
    if b >= 1 {
        lemma_fxd_bound(a, b, m);
    } else {
        lemma_fxd_bound(-a, -b, m);
        assert(fxd(a, b) == fxd(-a, -b));
    }
}

/// A quotient whose numerator is dominated by its positive denominator
/// stays within one unit of scale.
pub proof fn lemma_fxd_unit_interval(c: int, s: int)
    requires
        1 <= s,
        -s <= c <= s,
    ensures
        -(FX_ONE as int) <= fxd(c, s) <= FX_ONE as int,
{
    assert(-(s * FX_ONE as int) <= c * FX_ONE as int <= s * FX_ONE as int) by (nonlinear_arith)
        requires
            -s <= c <= s,
            FX_ONE == 65536,
    ;
    vstd::arithmetic::div_mod::lemma_div_is_ordered(c * FX_ONE as int, s * FX_ONE as int, s);
    vstd::arithmetic::div_mod::lemma_div_is_ordered(-(s * FX_ONE as int), c * FX_ONE as int, s);
    vstd::arithmetic::div_mod::lemma_div_multiples_vanish(FX_ONE as int, s);
    assert(s * FX_ONE as int == FX_ONE as int * s) by (nonlinear_arith);
    assert(-(s * FX_ONE as int) == (-(FX_ONE as int)) * s + 0) by (nonlinear_arith);
    vstd::arithmetic::div_mod::lemma_fundamental_div_mod_converse(
        -(s * FX_ONE as int), s, -(FX_ONE as int), 0);
}

/// Dividing by the unit scale's own value is exact.
pub proof fn lemma_fxd_unit(a: int)
    ensures
        fxd(a, FX_ONE as int) == a,
{
    vstd::arithmetic::div_mod::lemma_div_multiples_vanish(a, FX_ONE as int);
}

/// The floor of the square root, pinned down by its characteristic bracket.
pub open spec fn sqrt_floor(n: int) -> int {
    choose|s: int| 0 <= s && #[trigger] (s * s) <= n < (s + 1) * (s + 1)
}

/// Any integer satisfying the square-root bracket is the floor square root.
pub proof fn lemma_sqrt_floor_unique(n: int, s: int)
    requires
        0 <= s,
        s * s <= n < (s + 1) * (s + 1),
    ensures
        sqrt_floor(n) == s,
{
    assert(exists|t: int| 0 <= t && #[trigger] (t * t) <= n < (t + 1) * (t + 1)) by {
        assert(0 <= s && s * s <= n < (s + 1) * (s + 1));
    }
    let t = sqrt_floor(n);
    assert(0 <= t && t * t <= n < (t + 1) * (t + 1));
    assert(t == s) by (nonlinear_arith)
        requires
            0 <= s,
            0 <= t,
            s * s <= n < (s + 1) * (s + 1),
            t * t <= n < (t + 1) * (t + 1),
    ;
}

/// Exact integer square root: the floor of the square root of `n`.
pub fn isqrt64(n: u64) -> (r: u64)
    ensures
        r as int == sqrt_floor(n as int),
        (r as int) * (r as int) <= n as int && (n as int) < ((r as int) + 1) * ((r as int) + 1),
{
    let mut lo: u64 = 0;
    let mut hi: u64 = 4294967296;
    while lo + 1 < hi
        invariant
            lo < hi <= 4294967296,
            (lo as int) * (lo as int) <= n as int,
            (n as int) < (hi as int) * (hi as int),
        decreases hi - lo,
    {
        let mid: u64 = lo + (hi - lo) / 2;
        proof {
            assert((mid as int) * (mid as int) <= 0x10000000000000000) by (nonlinear_arith)
                requires
                    0 <= mid <= 0x100000000,
            ;
        }
        let sq: u128 = (mid as u128) * (mid as u128);
        if sq <= n as u128 {
            lo = mid;
        } else {
            hi = mid;
        }
    }
    proof {
        lemma_sqrt_floor_unique(n as int, lo as int);
    }
    lo
}

} // verus!
