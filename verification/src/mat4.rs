//! 4x4 transform matrices over fixed-point scalars.
//!
//! Entries are stored column-major, as the GPU expects them: the entry at row
//! `r`, column `c` sits at index `c * 4 + r`. Matrices act on column vectors,
//! so a product `t * r * s` scales first and translates last.
use vstd::prelude::*;
use crate::fixed::{FX_ONE, fx, fx3s, fxd, fx_mul, fx_mul3, fx_div};
use crate::fixed::{lemma_fx_bound, lemma_fx3_bound};

verus! {

/// Largest entry magnitude accepted by the matrix product.
pub const MUL_MAX: i64 = 0x4000000000;

/// Largest entry magnitude accepted by the matrix inverse.
pub const INV_MAX: i64 = 0x4000000;

/// A 4x4 matrix of fixed-point scalars in column-major order.
pub struct Mat4 {
    pub m: Vec<i64>,
}

/// Entry of a column-major 16-entry sequence at row `r`, column `c`.
pub open spec fn ent(s: Seq<i64>, r: int, c: int) -> int {
    s[c * 4 + r] as int
}

/// Every entry of the matrix sequence lies within `b` in magnitude.
pub open spec fn bounded(s: Seq<i64>, b: int) -> bool {
    forall|i: int| 0 <= i < 16 ==> -b <= #[trigger] s[i] <= b
}

/// Row `r`, column `c` of a matrix product: the scaled dot product of a row
/// of `a` with a column of `b`, each partial product rounded once.
pub open spec fn mm_ent(a: Seq<i64>, b: Seq<i64>, r: int, c: int) -> int {
    fx(ent(a, r, 0), ent(b, 0, c)) + fx(ent(a, r, 1), ent(b, 1, c))
        + fx(ent(a, r, 2), ent(b, 2, c)) + fx(ent(a, r, 3), ent(b, 3, c))
}

/// The identity transform's entries.
pub open spec fn identity_seq() -> Seq<i64> {
    seq![FX_ONE, 0, 0, 0, 0, FX_ONE, 0, 0, 0, 0, FX_ONE, 0, 0, 0, 0, FX_ONE]
}

/// Entries of a pure translation by `(tx, ty, tz)`.
pub open spec fn translation_seq(tx: i64, ty: i64, tz: i64) -> Seq<i64> {
    seq![FX_ONE, 0, 0, 0, 0, FX_ONE, 0, 0, 0, 0, FX_ONE, 0, tx, ty, tz, FX_ONE]
}

/// Entries of a pure axis-aligned scaling by `(sx, sy, sz)`.
pub open spec fn scaling_seq(sx: i64, sy: i64, sz: i64) -> Seq<i64> {
    seq![sx, 0, 0, 0, 0, sy, 0, 0, 0, 0, sz, 0, 0, 0, 0, FX_ONE]
}

/// Entries of a rotation about the y axis whose cosine and sine are `c`, `s`.
pub open spec fn rotation_y_seq(c: i64, s: i64) -> Seq<i64> {
    let ns = (-(s as int)) as i64;
    seq![c, 0, ns, 0, 0, FX_ONE, 0, 0, s, 0, c, 0, 0, 0, 0, FX_ONE]
}

impl Mat4 {
    /// The matrix owns exactly the sixteen entries of a 4x4 grid.
    pub open spec fn wf(&self) -> bool {
        self.m@.len() == 16
    }

    /// Entry at row `r`, column `c`.
    pub fn get(&self, r: usize, c: usize) -> (v: i64)
        requires
            self.wf(),
            r < 4,
            c < 4,
        ensures
            v as int == ent(self.m@, r as int, c as int),
    {
        self.m[c * 4 + r]
    }

    /// An identical copy of the matrix.
    pub fn duplicate(&self) -> (res: Mat4)
        requires
            self.wf(),
        ensures
            res.wf(),
            res.m@ == self.m@,
    {
        let mut out: Vec<i64> = Vec::new();
        let mut i: usize = 0;
        while i < 16
            invariant
                self.wf(),
                i <= 16,
                out@ == self.m@.subrange(0, i as int),
            decreases 16 - i,
        {
            out.push(self.m[i]);
            proof {
                assert(out@ =~= self.m@.subrange(0, i + 1));
            }
            i += 1;
        }
        proof {
            assert(out@ =~= self.m@);
        }
        Mat4 { m: out }
    }
}

/// The identity transform.
pub fn identity() -> (res: Mat4)
    ensures
        res.wf(),
        res.m@ == identity_seq(),
{
    let res = Mat4 {
        m: vec![FX_ONE, 0, 0, 0, 0, FX_ONE, 0, 0, 0, 0, FX_ONE, 0, 0, 0, 0, FX_ONE],
    };
    proof {
        assert(res.m@ =~= identity_seq());
    }
    res
}

/// A pure translation by `(tx, ty, tz)`.
pub fn translation(tx: i64, ty: i64, tz: i64) -> (res: Mat4)
    ensures
        res.wf(),
        res.m@ == translation_seq(tx, ty, tz),
{
    let res = Mat4 {
        m: vec![FX_ONE, 0, 0, 0, 0, FX_ONE, 0, 0, 0, 0, FX_ONE, 0, tx, ty, tz, FX_ONE],
    };
    proof {
        assert(res.m@ =~= translation_seq(tx, ty, tz));
    }
    res
}

/// A pure axis-aligned scaling by `(sx, sy, sz)`.
pub fn scaling(sx: i64, sy: i64, sz: i64) -> (res: Mat4)
    ensures
        res.wf(),
        res.m@ == scaling_seq(sx, sy, sz),
{
    let res = Mat4 {
        m: vec![sx, 0, 0, 0, 0, sy, 0, 0, 0, 0, sz, 0, 0, 0, 0, FX_ONE],
    };
    proof {
        assert(res.m@ =~= scaling_seq(sx, sy, sz));
    }
    res
}

/// A rotation about the y axis with the given fixed-point cosine and sine.
pub fn rotation_y(c: i64, s: i64) -> (res: Mat4)
    requires
        i64::MIN < s,
    ensures
        res.wf(),
        res.m@ == rotation_y_seq(c, s),
{
    let ns: i64 = -s;
    let res = Mat4 {
        m: vec![c, 0, ns, 0, 0, FX_ONE, 0, 0, s, 0, c, 0, 0, 0, 0, FX_ONE],
    };
    proof {
        assert(res.m@ =~= rotation_y_seq(c, s));
    }
    res
}

/// Matrix product `a * b`: applies `b` first, then `a`.
pub fn mat_mul(a: &Mat4, b: &Mat4) -> (res: Mat4)
    requires
        a.wf(),
        b.wf(),
        bounded(a.m@, MUL_MAX as int),
        bounded(b.m@, MUL_MAX as int),
    ensures
        res.wf(),
        res.m@ == mm_seq(a.m@, b.m@),
        forall|r: int, c: int|
            0 <= r < 4 && 0 <= c < 4 ==> ent(res.m@, r, c) == #[trigger] mm_ent(
                a.m@, b.m@, r, c),
{
    let mut out: Vec<i64> = Vec::new();
    let mut cc: usize = 0;
    while cc < 4
        invariant
            a.wf(),
            b.wf(),
            bounded(a.m@, MUL_MAX as int),
            bounded(b.m@, MUL_MAX as int),
            cc <= 4,
            out@.len() == cc * 4,
            forall|j: int|
                0 <= j < out@.len() ==> #[trigger] out@[j] as int == mm_ent(
                    a.m@, b.m@, j % 4, j / 4),
        decreases 4 - cc,
    {
        let mut rr: usize = 0;
        while rr < 4
            invariant
                a.wf(),
                b.wf(),
                bounded(a.m@, MUL_MAX as int),
                bounded(b.m@, MUL_MAX as int),
                cc < 4,
                rr <= 4,
                out@.len() == cc * 4 + rr,
                forall|j: int|
                    0 <= j < out@.len() ==> #[trigger] out@[j] as int == mm_ent(
                        a.m@, b.m@, j % 4, j / 4),
            decreases 4 - rr,
        {
            proof {
                lemma_fx_bound(ent(a.m@, rr as int, 0), ent(b.m@, 0, cc as int),
                    MUL_MAX as int, MUL_MAX as int);
                lemma_fx_bound(ent(a.m@, rr as int, 1), ent(b.m@, 1, cc as int),
                    MUL_MAX as int, MUL_MAX as int);
                lemma_fx_bound(ent(a.m@, rr as int, 2), ent(b.m@, 2, cc as int),
                    MUL_MAX as int, MUL_MAX as int);
                lemma_fx_bound(ent(a.m@, rr as int, 3), ent(b.m@, 3, cc as int),
                    MUL_MAX as int, MUL_MAX as int);
            }
            let s0 = fx_mul(a.get(rr, 0), b.get(0, cc));
            let s1 = fx_mul(a.get(rr, 1), b.get(1, cc));
            let s2 = fx_mul(a.get(rr, 2), b.get(2, cc));
            let s3 = fx_mul(a.get(rr, 3), b.get(3, cc));
            let v = s0 + s1 + s2 + s3;
            proof {
                vstd::arithmetic::div_mod::lemma_fundamental_div_mod_converse(
                    cc as int * 4 + rr as int, 4, cc as int, rr as int);
            }
            out.push(v);
            rr += 1;
        }
        cc += 1;
    }
    let res = Mat4 { m: out };
    proof {
        assert forall|r: int, c: int| 0 <= r < 4 && 0 <= c < 4 implies ent(res.m@, r, c)
            == #[trigger] mm_ent(a.m@, b.m@, r, c) by {
            vstd::arithmetic::div_mod::lemma_fundamental_div_mod_converse(c * 4 + r, 4, c, r);
        }
        assert forall|i: int| 0 <= i < 16 implies res.m@[i] == #[trigger] mm_seq(
            a.m@, b.m@)[i] by {
            vstd::arithmetic::div_mod::lemma_mod_pos_bound(i, 4);
        }
        assert(res.m@ =~= mm_seq(a.m@, b.m@));
    }
    res
}

/// The whole matrix product as an entry sequence.
pub open spec fn mm_seq(a: Seq<i64>, b: Seq<i64>) -> Seq<i64> {
    Seq::new(16, |i: int| mm_ent(a, b, i % 4, i / 4) as i64)
}

/// The whole transpose as an entry sequence.
pub open spec fn transpose_seq(s: Seq<i64>) -> Seq<i64> {
    Seq::new(16, |i: int| s[(i % 4) * 4 + i / 4])
}

/// Entry bounds of a matrix product follow from entry bounds of its factors.
pub proof fn lemma_mm_bounded(a: Seq<i64>, b: Seq<i64>, prod: Seq<i64>, ba: int, bb: int)
    requires
        a.len() == 16,
        b.len() == 16,
        prod.len() == 16,
        bounded(a, ba),
        bounded(b, bb),
        forall|r: int, c: int|
            0 <= r < 4 && 0 <= c < 4 ==> ent(prod, r, c) == #[trigger] mm_ent(a, b, r, c),
    ensures
        bounded(prod, 4 * ((ba * bb) / FX_ONE as int + 1)),
{
    assert forall|i: int| 0 <= i < 16 implies -(4 * ((ba * bb) / FX_ONE as int + 1))
        <= #[trigger] prod[i] <= 4 * ((ba * bb) / FX_ONE as int + 1) by {
        vstd::arithmetic::div_mod::lemma_fundamental_div_mod(i, 4);
        vstd::arithmetic::div_mod::lemma_mod_pos_bound(i, 4);
        let r = i % 4;
        let c = i / 4;
        assert(0 <= r < 4 && 0 <= c < 4);
        assert(ent(prod, r, c) == mm_ent(a, b, r, c));
        lemma_fx_bound(ent(a, r, 0), ent(b, 0, c), ba, bb);
        lemma_fx_bound(ent(a, r, 1), ent(b, 1, c), ba, bb);
        lemma_fx_bound(ent(a, r, 2), ent(b, 2, c), ba, bb);
        lemma_fx_bound(ent(a, r, 3), ent(b, 3, c), ba, bb);
    }
}

/// Cotangent of half the 60-degree vertical field of view, in scaled units:
/// the floor of the square root of three times the unit scale.
pub const PROJ_COT: i64 = 113511;

/// Near clipping plane distance, in scaled units: one world unit.
pub const PROJ_NEAR: i64 = 65536;

/// Far clipping plane distance, in scaled units: two thousand world units.
pub const PROJ_FAR: i64 = 2000 * 65536;

/// Entries of the perspective projection for a viewport of `w` by `h`
/// pixels: 60-degree vertical field of view, near plane at one unit, far
/// plane at two thousand.
pub open spec fn perspective_seq(w: int, h: int) -> Seq<i64> {
    let aspect = fxd(w, h);
    let m00 = fxd(PROJ_COT as int, aspect) as i64;
    let m22 = fxd(-(PROJ_NEAR as int + PROJ_FAR as int), PROJ_FAR as int - PROJ_NEAR as int)
        as i64;
    let m23 = fxd(-(2 * fx(PROJ_FAR as int, PROJ_NEAR as int)),
        PROJ_FAR as int - PROJ_NEAR as int) as i64;
    let nm1 = (-(FX_ONE as int)) as i64;
    seq![m00, 0, 0, 0, 0, PROJ_COT, 0, 0, 0, 0, m22, nm1, 0, 0, m23, 0]
}

/// The perspective projection for a viewport of `width` by `height` pixels.
pub fn perspective(width: u32, height: u32) -> (res: Mat4)
    requires
        1 <= width <= 32768,
        1 <= height <= 32768,
    ensures
        res.wf(),
        res.m@ == perspective_seq(width as int, height as int),
{
    proof {
        crate::fixed::lemma_fxd_bound(width as int, height as int, 32768);
        vstd::arithmetic::div_mod::lemma_div_is_ordered(FX_ONE as int,
            width as int * FX_ONE as int, height as int);
        vstd::arithmetic::div_mod::lemma_div_is_ordered_by_denominator(FX_ONE as int,
            height as int, 32768);
    }
    let aspect = fx_div(width as i64, height as i64);
    proof {
        crate::fixed::lemma_fxd_bound(PROJ_COT as int, aspect as int, PROJ_COT as int);
    }
    let m00 = fx_div(PROJ_COT, aspect);
    let m22 = fx_div(-(PROJ_NEAR + PROJ_FAR), PROJ_FAR - PROJ_NEAR);
    let m23 = fx_div(-(2 * fx_mul(PROJ_FAR, PROJ_NEAR)), PROJ_FAR - PROJ_NEAR);
    let nm1: i64 = -FX_ONE;
    let res = Mat4 {
        m: vec![m00, 0, 0, 0, 0, PROJ_COT, 0, 0, 0, 0, m22, nm1, 0, 0, m23, 0],
    };
    proof {
        assert(res.m@ =~= perspective_seq(width as int, height as int));
    }
    res
}

/// The row or column index of a 3x3 minor mapped back into the 4x4 grid,
/// skipping the deleted index `i`.
pub open spec fn skip_i(i: int, k: int) -> int {
    if k < i {
        k
    } else {
        k + 1
    }
}

/// Determinant of the 3x3 minor of `s` obtained by deleting row `r` and
/// column `c`, expanded by the rule of Sarrus over fixed-point products.
pub open spec fn minor_det(s: Seq<i64>, r: int, c: int) -> int {
    let e00 = ent(s, skip_i(r, 0), skip_i(c, 0));
    let e01 = ent(s, skip_i(r, 0), skip_i(c, 1));
    let e02 = ent(s, skip_i(r, 0), skip_i(c, 2));
    let e10 = ent(s, skip_i(r, 1), skip_i(c, 0));
    let e11 = ent(s, skip_i(r, 1), skip_i(c, 1));
    let e12 = ent(s, skip_i(r, 1), skip_i(c, 2));
    let e20 = ent(s, skip_i(r, 2), skip_i(c, 0));
    let e21 = ent(s, skip_i(r, 2), skip_i(c, 1));
    let e22 = ent(s, skip_i(r, 2), skip_i(c, 2));
    fx3s(e00, e11, e22) + fx3s(e01, e12, e20) + fx3s(e02, e10, e21) - fx3s(e02, e11, e20)
        - fx3s(e01, e10, e22) - fx3s(e00, e12, e21)
}

/// Signed cofactor of the entry at row `r`, column `c`.
pub open spec fn cof(s: Seq<i64>, r: int, c: int) -> int {
    if (r + c) % 2 == 0 {
        minor_det(s, r, c)
    } else {
        -minor_det(s, r, c)
    }
}

/// Determinant of the 4x4 matrix, expanded along the first column.
pub open spec fn det4(s: Seq<i64>) -> int {
    fx(ent(s, 0, 0), cof(s, 0, 0)) + fx(ent(s, 1, 0), cof(s, 1, 0)) + fx(
        ent(s, 2, 0), cof(s, 2, 0)) + fx(ent(s, 3, 0), cof(s, 3, 0))
}

/// Row `r`, column `c` of the inverse: the transposed cofactor divided by
/// the determinant.
pub open spec fn inv_ent(s: Seq<i64>, r: int, c: int) -> int {
    fxd(cof(s, c, r), det4(s))
}

/// The whole inverse as an entry sequence.
pub open spec fn inv_seq(s: Seq<i64>) -> Seq<i64> {
    Seq::new(16, |i: int| inv_ent(s, i % 4, i / 4) as i64)
}

/// The matrix is invertible here: nonzero determinant and every entry of the
/// inverse representable.
pub open spec fn inv_fits(s: Seq<i64>) -> bool {
    det4(s) != 0 && forall|r: int, c: int|
        0 <= r < 4 && 0 <= c < 4 ==> i64::MIN <= #[trigger] inv_ent(s, r, c) <= i64::MAX
}

/// Maps a 3x3 minor index back into the 4x4 grid, skipping deleted index `i`.
fn skip_idx(i: usize, k: usize) -> (res: usize)
    requires
        i < 4,
        k < 3,
    ensures
        res as int == skip_i(i as int, k as int),
        res < 4,
{
    if k < i {
        k
    } else {
        k + 1
    }
}

/// Determinant of the 3x3 minor left after deleting row `r` and column `c`.
fn minor3(m: &Mat4, r: usize, c: usize) -> (res: i64)
    requires
        m.wf(),
        bounded(m.m@, INV_MAX as int),
        r < 4,
        c < 4,
    ensures
        res as int == minor_det(m.m@, r as int, c as int),
        -0x1800000000006 <= res <= 0x1800000000006,
{
    let r0 = skip_idx(r, 0);
    let r1 = skip_idx(r, 1);
    let r2 = skip_idx(r, 2);
    let c0 = skip_idx(c, 0);
    let c1 = skip_idx(c, 1);
    let c2 = skip_idx(c, 2);
    let e00 = m.get(r0, c0);
    let e01 = m.get(r0, c1);
    let e02 = m.get(r0, c2);
    let e10 = m.get(r1, c0);
    let e11 = m.get(r1, c1);
    let e12 = m.get(r1, c2);
    let e20 = m.get(r2, c0);
    let e21 = m.get(r2, c1);
    let e22 = m.get(r2, c2);
    proof {
        lemma_fx3_bound(e00 as int, e11 as int, e22 as int, INV_MAX as int);
        lemma_fx3_bound(e01 as int, e12 as int, e20 as int, INV_MAX as int);
        lemma_fx3_bound(e02 as int, e10 as int, e21 as int, INV_MAX as int);
        lemma_fx3_bound(e02 as int, e11 as int, e20 as int, INV_MAX as int);
        lemma_fx3_bound(e01 as int, e10 as int, e22 as int, INV_MAX as int);
        lemma_fx3_bound(e00 as int, e12 as int, e21 as int, INV_MAX as int);
    }
    let t0 = fx_mul3(e00, e11, e22);
    let t1 = fx_mul3(e01, e12, e20);
    let t2 = fx_mul3(e02, e10, e21);
    let t3 = fx_mul3(e02, e11, e20);
    let t4 = fx_mul3(e01, e10, e22);
    let t5 = fx_mul3(e00, e12, e21);
    t0 + t1 + t2 - t3 - t4 - t5
}

/// Signed cofactor of the entry at row `r`, column `c`.
fn cofactor(m: &Mat4, r: usize, c: usize) -> (res: i64)
    requires
        m.wf(),
        bounded(m.m@, INV_MAX as int),
        r < 4,
        c < 4,
    ensures
        res as int == cof(m.m@, r as int, c as int),
        -0x1800000000006 <= res <= 0x1800000000006,
{
    let d = minor3(m, r, c);
    if (r + c) % 2 == 0 {
        d
    } else {
        -d
    }
}

/// Determinant of the matrix.
pub fn det(m: &Mat4) -> (res: i64)
    requires
        m.wf(),
        bounded(m.m@, INV_MAX as int),
    ensures
        res as int == det4(m.m@),
{
    let c0 = cofactor(m, 0, 0);
    let c1 = cofactor(m, 1, 0);
    let c2 = cofactor(m, 2, 0);
    let c3 = cofactor(m, 3, 0);
    proof {
        lemma_fx_bound(ent(m.m@, 0, 0), cof(m.m@, 0, 0), INV_MAX as int, 0x1800000000006);
        lemma_fx_bound(ent(m.m@, 1, 0), cof(m.m@, 1, 0), INV_MAX as int, 0x1800000000006);
        lemma_fx_bound(ent(m.m@, 2, 0), cof(m.m@, 2, 0), INV_MAX as int, 0x1800000000006);
        lemma_fx_bound(ent(m.m@, 3, 0), cof(m.m@, 3, 0), INV_MAX as int, 0x1800000000006);
    }
    let s0 = fx_mul(m.get(0, 0), c0);
    let s1 = fx_mul(m.get(1, 0), c1);
    let s2 = fx_mul(m.get(2, 0), c2);
    let s3 = fx_mul(m.get(3, 0), c3);
    s0 + s1 + s2 + s3
}

/// The inverse: adjugate entries divided by the determinant, entry by entry.
pub fn inverse(m: &Mat4) -> (res: Mat4)
    requires
        m.wf(),
        bounded(m.m@, INV_MAX as int),
        inv_fits(m.m@),
    ensures
        res.wf(),
        forall|r: int, c: int|
            0 <= r < 4 && 0 <= c < 4 ==> #[trigger] ent(res.m@, r, c) == inv_ent(m.m@, r, c),
{
    let d = det(m);
    let mut out: Vec<i64> = Vec::new();
    let mut cc: usize = 0;
    while cc < 4
        invariant
            m.wf(),
            bounded(m.m@, INV_MAX as int),
            inv_fits(m.m@),
            d as int == det4(m.m@),
            cc <= 4,
            out@.len() == cc * 4,
            forall|j: int|
                0 <= j < out@.len() ==> #[trigger] out@[j] as int == inv_ent(
                    m.m@, j % 4, j / 4),
        decreases 4 - cc,
    {
        let mut rr: usize = 0;
        while rr < 4
            invariant
                m.wf(),
                bounded(m.m@, INV_MAX as int),
                inv_fits(m.m@),
                d as int == det4(m.m@),
                cc < 4,
                rr <= 4,
                out@.len() == cc * 4 + rr,
                forall|j: int|
                    0 <= j < out@.len() ==> #[trigger] out@[j] as int == inv_ent(
                        m.m@, j % 4, j / 4),
            decreases 4 - rr,
        {
            let cv = cofactor(m, cc, rr);
            proof {
                assert(i64::MIN <= inv_ent(m.m@, rr as int, cc as int) <= i64::MAX);
            }
            let v = fx_div(cv, d);
            proof {
                vstd::arithmetic::div_mod::lemma_fundamental_div_mod_converse(
                    cc as int * 4 + rr as int, 4, cc as int, rr as int);
            }
            out.push(v);
            rr += 1;
        }
        cc += 1;
    }
    let res = Mat4 { m: out };
    proof {
        assert forall|r: int, c: int| 0 <= r < 4 && 0 <= c < 4 implies #[trigger] ent(
            res.m@, r, c) == inv_ent(m.m@, r, c) by {
            vstd::arithmetic::div_mod::lemma_fundamental_div_mod_converse(c * 4 + r, 4, c, r);
        }
    }
    res
}

/// Whether every entry of the matrix lies within `b` in magnitude.
pub fn is_bounded(m: &Mat4, b: i64) -> (res: bool)
    requires
        m.wf(),
        0 <= b,
        b < 0x7fffffffffffffff,
    ensures
        res == bounded(m.m@, b as int),
{
    let mut i: usize = 0;
    while i < 16
        invariant
            m.wf(),
            0 <= b < 0x7fffffffffffffff,
            i <= 16,
            forall|j: int| 0 <= j < i ==> -b <= #[trigger] m.m@[j] <= b,
        decreases 16 - i,
    {
        let v = m.m[i];
        if v < -b || v > b {
            return false;
        }
        i += 1;
    }
    true
}

/// The inverse, if the matrix has one whose entries are representable:
/// `None` exactly when the determinant vanishes or an entry overflows.
pub fn try_inverse(m: &Mat4) -> (res: Option<Mat4>)
    requires
        m.wf(),
        bounded(m.m@, INV_MAX as int),
    ensures
        res is Some <==> inv_fits(m.m@),
        res is Some ==> {
            let inv = res->Some_0;
            &&& inv.wf()
            &&& inv.m@ == inv_seq(m.m@)
            &&& forall|r: int, c: int|
                0 <= r < 4 && 0 <= c < 4 ==> #[trigger] ent(inv.m@, r, c) == inv_ent(m.m@, r, c)
        },
{
    let d = det(m);
    if d == 0 {
        return None;
    }
    let mut out: Vec<i64> = Vec::new();
    let mut cc: usize = 0;
    while cc < 4
        invariant
            m.wf(),
            bounded(m.m@, INV_MAX as int),
            d as int == det4(m.m@),
            d != 0,
            cc <= 4,
            out@.len() == cc * 4,
            forall|j: int|
                0 <= j < out@.len() ==> #[trigger] out@[j] as int == inv_ent(
                    m.m@, j % 4, j / 4),
        decreases 4 - cc,
    {
        let mut rr: usize = 0;
        while rr < 4
            invariant
                m.wf(),
                bounded(m.m@, INV_MAX as int),
                d as int == det4(m.m@),
                d != 0,
                cc < 4,
                rr <= 4,
                out@.len() == cc * 4 + rr,
                forall|j: int|
                    0 <= j < out@.len() ==> #[trigger] out@[j] as int == inv_ent(
                        m.m@, j % 4, j / 4),
            decreases 4 - rr,
        {
            let cv = cofactor(m, cc, rr);
            let q = crate::fixed::fx_div_wide(cv, d);
            if q < -0x8000000000000000 || q > 0x7fffffffffffffff {
                proof {
                    assert(!(i64::MIN <= inv_ent(m.m@, rr as int, cc as int) <= i64::MAX));
                }
                return None;
            }
            proof {
                vstd::arithmetic::div_mod::lemma_fundamental_div_mod_converse(
                    cc as int * 4 + rr as int, 4, cc as int, rr as int);
            }
            out.push(q as i64);
            rr += 1;
        }
        cc += 1;
    }
    let res = Mat4 { m: out };
    proof {
        assert forall|r: int, c: int| 0 <= r < 4 && 0 <= c < 4 implies #[trigger] ent(
            res.m@, r, c) == inv_ent(m.m@, r, c) by {
            vstd::arithmetic::div_mod::lemma_fundamental_div_mod_converse(c * 4 + r, 4, c, r);
        }
        assert forall|r: int, c: int| 0 <= r < 4 && 0 <= c < 4 implies i64::MIN <= #[trigger]
            inv_ent(m.m@, r, c) <= i64::MAX by {
            assert(ent(res.m@, r, c) == inv_ent(m.m@, r, c));
            assert(i64::MIN <= res.m@[c * 4 + r] <= i64::MAX);
        }
        assert(inv_fits(m.m@));
        assert forall|i: int| 0 <= i < 16 implies res.m@[i] == #[trigger] inv_seq(m.m@)[i] by {
            vstd::arithmetic::div_mod::lemma_mod_pos_bound(i, 4);
        }
        assert(res.m@ =~= inv_seq(m.m@));
    }
    Some(res)
}

/// The transpose: rows and columns exchanged.
pub fn transpose(a: &Mat4) -> (res: Mat4)
    requires
        a.wf(),
    ensures
        res.wf(),
        res.m@ == transpose_seq(a.m@),
        forall|r: int, c: int|
            0 <= r < 4 && 0 <= c < 4 ==> #[trigger] ent(res.m@, r, c) == ent(a.m@, c, r),
{
    let mut out: Vec<i64> = Vec::new();
    let mut cc: usize = 0;
    while cc < 4
        invariant
            a.wf(),
            cc <= 4,
            out@.len() == cc * 4,
            forall|j: int|
                0 <= j < out@.len() ==> #[trigger] out@[j] as int == ent(a.m@, j / 4, j % 4),
        decreases 4 - cc,
    {
        let mut rr: usize = 0;
        while rr < 4
            invariant
                a.wf(),
                cc < 4,
                rr <= 4,
                out@.len() == cc * 4 + rr,
                forall|j: int|
                    0 <= j < out@.len() ==> #[trigger] out@[j] as int == ent(a.m@, j / 4, j % 4),
            decreases 4 - rr,
        {
            let v = a.get(cc, rr);
            proof {
                vstd::arithmetic::div_mod::lemma_fundamental_div_mod_converse(
                    cc as int * 4 + rr as int, 4, cc as int, rr as int);
            }
            out.push(v);
            rr += 1;
        }
        cc += 1;
    }
    let res = Mat4 { m: out };
    proof {
        assert forall|r: int, c: int| 0 <= r < 4 && 0 <= c < 4 implies #[trigger] ent(
            res.m@, r, c) == ent(a.m@, c, r) by {
            vstd::arithmetic::div_mod::lemma_fundamental_div_mod_converse(c * 4 + r, 4, c, r);
        }
        assert forall|i: int| 0 <= i < 16 implies res.m@[i] == #[trigger] transpose_seq(
            a.m@)[i] by {
            vstd::arithmetic::div_mod::lemma_mod_pos_bound(i, 4);
        }
        assert(res.m@ =~= transpose_seq(a.m@));
    }
    res
}

} // verus!
