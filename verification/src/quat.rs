//! Orientation quaternions over fixed-point scalars.
//!
//! The camera's orientation is a quaternion `(x, y, z, w)` of scaled
//! components. Interpolation between orientations is normalized linear
//! interpolation along the shorter arc: it agrees with spherical
//! interpolation at both endpoints exactly, which is what the transition
//! state machine promises, and approximates its constant angular velocity
//! in between — the spherical form itself needs trigonometry that integer
//! scalars cannot carry exactly.
use vstd::prelude::*;
use crate::fixed::{FX_ONE, fx, fxd, sqrt_floor, fx_mul, fx_div, isqrt64};
use crate::fixed::lemma_fx_bound;
use crate::mat4::Mat4;

verus! {

/// Largest component magnitude the quaternion operations accept: four times
/// the unit scale, comfortably past anything a unit-length orientation and
/// its interpolants can reach.
pub const QCOMP_MAX: i64 = 0x40000;

/// An orientation: a quaternion of fixed-point components.
#[derive(Clone, Copy, PartialEq, Eq, Structural, Debug)]
pub struct Quat {
    pub x: i64,
    pub y: i64,
    pub z: i64,
    pub w: i64,
}

/// Squared length of the quaternion in raw (doubly scaled) units.
pub open spec fn qnorm2(q: Quat) -> int {
    (q.x as int) * (q.x as int) + (q.y as int) * (q.y as int) + (q.z as int) * (q.z as int)
        + (q.w as int) * (q.w as int)
}

/// All four components lie within `b` in magnitude.
pub open spec fn qbounded(q: Quat, b: int) -> bool {
    &&& -b <= q.x <= b
    &&& -b <= q.y <= b
    &&& -b <= q.z <= b
    &&& -b <= q.w <= b
}

/// A quaternion built from mathematical components; the caller keeps them
/// within scalar range.
pub open spec fn qmk(x: int, y: int, z: int, w: int) -> Quat {
    Quat { x: x as i64, y: y as i64, z: z as i64, w: w as i64 }
}

/// The scaled dot product of two quaternions, each partial product rounded.
pub open spec fn qdot_fx(a: Quat, b: Quat) -> int {
    fx(a.x as int, b.x as int) + fx(a.y as int, b.y as int) + fx(a.z as int, b.z as int)
        + fx(a.w as int, b.w as int)
}

/// `b` or its negation, whichever lies on the same hemisphere as `a`.
pub open spec fn qalign_s(a: Quat, b: Quat) -> Quat {
    if qdot_fx(a, b) < 0 {
        qmk(-(b.x as int), -(b.y as int), -(b.z as int), -(b.w as int))
    } else {
        b
    }
}

/// Componentwise linear interpolation at parameter `t` of the unit scale.
pub open spec fn qlerp_s(a: Quat, b: Quat, t: int) -> Quat {
    qmk(
        a.x + fx(t, b.x - a.x),
        a.y + fx(t, b.y - a.y),
        a.z + fx(t, b.z - a.z),
        a.w + fx(t, b.w - a.w),
    )
}

/// The quaternion rescaled to unit length: each component divided by the
/// floor square root of the squared length.
pub open spec fn qnormalize_s(q: Quat) -> Quat {
    let s = sqrt_floor(qnorm2(q));
    qmk(
        fxd(q.x as int, s),
        fxd(q.y as int, s),
        fxd(q.z as int, s),
        fxd(q.w as int, s),
    )
}

/// Normalized linear interpolation along the shorter arc, snapping exactly
/// to either endpoint at the ends of the parameter range. A degenerate
/// interpolant of zero length leaves the start orientation in place.
pub open spec fn qnlerp_s(a: Quat, b: Quat, t: int) -> Quat {
    if t <= 0 {
        a
    } else if t >= FX_ONE as int {
        b
    } else {
        let l = qlerp_s(a, qalign_s(a, b), t);
        if qnorm2(l) == 0 {
            a
        } else {
            qnormalize_s(l)
        }
    }
}

/// Column-major entries of the rotation matrix of a unit-scale quaternion.
pub open spec fn quat_mat_seq(q: Quat) -> Seq<i64> {
    let x = q.x as int;
    let y = q.y as int;
    let z = q.z as int;
    let w = q.w as int;
    let m00 = (FX_ONE as int - 2 * (fx(y, y) + fx(z, z))) as i64;
    let m10 = (2 * (fx(x, y) + fx(w, z))) as i64;
    let m20 = (2 * (fx(x, z) - fx(w, y))) as i64;
    let m01 = (2 * (fx(x, y) - fx(w, z))) as i64;
    let m11 = (FX_ONE as int - 2 * (fx(x, x) + fx(z, z))) as i64;
    let m21 = (2 * (fx(y, z) + fx(w, x))) as i64;
    let m02 = (2 * (fx(x, z) + fx(w, y))) as i64;
    let m12 = (2 * (fx(y, z) - fx(w, x))) as i64;
    let m22 = (FX_ONE as int - 2 * (fx(x, x) + fx(y, y))) as i64;
    seq![m00, m10, m20, 0, m01, m11, m21, 0, m02, m12, m22, 0, 0, 0, 0, FX_ONE]
}

/// The rotation matrix of an orientation quaternion.
pub fn quat_to_mat4(q: Quat) -> (res: Mat4)
    requires
        qbounded(q, QCOMP_MAX as int),
    ensures
        res.wf(),
        res.m@ == quat_mat_seq(q),
        crate::mat4::bounded(res.m@, 0x500000),
{
    proof {
        lemma_fx_bound(q.x as int, q.x as int, QCOMP_MAX as int, QCOMP_MAX as int);
        lemma_fx_bound(q.y as int, q.y as int, QCOMP_MAX as int, QCOMP_MAX as int);
        lemma_fx_bound(q.z as int, q.z as int, QCOMP_MAX as int, QCOMP_MAX as int);
        lemma_fx_bound(q.x as int, q.y as int, QCOMP_MAX as int, QCOMP_MAX as int);
        lemma_fx_bound(q.x as int, q.z as int, QCOMP_MAX as int, QCOMP_MAX as int);
        lemma_fx_bound(q.y as int, q.z as int, QCOMP_MAX as int, QCOMP_MAX as int);
        lemma_fx_bound(q.w as int, q.x as int, QCOMP_MAX as int, QCOMP_MAX as int);
        lemma_fx_bound(q.w as int, q.y as int, QCOMP_MAX as int, QCOMP_MAX as int);
        lemma_fx_bound(q.w as int, q.z as int, QCOMP_MAX as int, QCOMP_MAX as int);
    }
    let xx = fx_mul(q.x, q.x);
    let yy = fx_mul(q.y, q.y);
    let zz = fx_mul(q.z, q.z);
    let xy = fx_mul(q.x, q.y);
    let xz = fx_mul(q.x, q.z);
    let yz = fx_mul(q.y, q.z);
    let wx = fx_mul(q.w, q.x);
    let wy = fx_mul(q.w, q.y);
    let wz = fx_mul(q.w, q.z);
    let m00: i64 = FX_ONE - 2 * (yy + zz);
    let m10: i64 = 2 * (xy + wz);
    let m20: i64 = 2 * (xz - wy);
    let m01: i64 = 2 * (xy - wz);
    let m11: i64 = FX_ONE - 2 * (xx + zz);
    let m21: i64 = 2 * (yz + wx);
    let m02: i64 = 2 * (xz + wy);
    let m12: i64 = 2 * (yz - wx);
    let m22: i64 = FX_ONE - 2 * (xx + yy);
    let res = Mat4 {
        m: vec![m00, m10, m20, 0, m01, m11, m21, 0, m02, m12, m22, 0, 0, 0, 0, FX_ONE],
    };
    proof {
        assert(res.m@ =~= quat_mat_seq(q));
        assert forall|i: int| 0 <= i < 16 implies -0x500000 <= #[trigger] res.m@[i]
            <= 0x500000 by {
            assert(res.m@ =~= quat_mat_seq(q));
        }
    }
    res
}

/// The identity orientation.
pub fn quat_identity() -> (res: Quat)
    ensures
        res == (Quat { x: 0i64, y: 0i64, z: 0i64, w: FX_ONE }),
{
    Quat { x: 0, y: 0, z: 0, w: FX_ONE }
}

/// The conjugate, which inverts a unit orientation.
pub fn quat_conjugate(q: Quat) -> (res: Quat)
    requires
        qbounded(q, QCOMP_MAX as int),
    ensures
        res == qmk(-(q.x as int), -(q.y as int), -(q.z as int), q.w as int),
{
    Quat { x: -q.x, y: -q.y, z: -q.z, w: q.w }
}

/// Normalized linear interpolation between orientations `a` and `b` at
/// parameter `t` of the unit scale.
pub fn quat_nlerp(a: Quat, b: Quat, t: i64) -> (res: Quat)
    requires
        qbounded(a, QCOMP_MAX as int),
        qbounded(b, QCOMP_MAX as int),
    ensures
        res == qnlerp_s(a, b, t as int),
        qbounded(res, QCOMP_MAX as int),
        t <= 0 ==> res == a,
        t >= FX_ONE ==> res == b,
{
    if t <= 0 {
        return a;
    }
    if t >= FX_ONE {
        return b;
    }
    proof {
        lemma_fx_bound(a.x as int, b.x as int, QCOMP_MAX as int, QCOMP_MAX as int);
        lemma_fx_bound(a.y as int, b.y as int, QCOMP_MAX as int, QCOMP_MAX as int);
        lemma_fx_bound(a.z as int, b.z as int, QCOMP_MAX as int, QCOMP_MAX as int);
        lemma_fx_bound(a.w as int, b.w as int, QCOMP_MAX as int, QCOMP_MAX as int);
    }
    let dx = fx_mul(a.x, b.x);
    let dy = fx_mul(a.y, b.y);
    let dz = fx_mul(a.z, b.z);
    let dw = fx_mul(a.w, b.w);
    let dot = dx + dy + dz + dw;
    let bb: Quat = if dot < 0 {
        Quat { x: -b.x, y: -b.y, z: -b.z, w: -b.w }
    } else {
        b
    };
    proof {
        assert(bb == qalign_s(a, b));
        lemma_fx_bound(t as int, bb.x - a.x, FX_ONE as int, 2 * QCOMP_MAX as int);
        lemma_fx_bound(t as int, bb.y - a.y, FX_ONE as int, 2 * QCOMP_MAX as int);
        lemma_fx_bound(t as int, bb.z - a.z, FX_ONE as int, 2 * QCOMP_MAX as int);
        lemma_fx_bound(t as int, bb.w - a.w, FX_ONE as int, 2 * QCOMP_MAX as int);
    }
    let lx = a.x + fx_mul(t, bb.x - a.x);
    let ly = a.y + fx_mul(t, bb.y - a.y);
    let lz = a.z + fx_mul(t, bb.z - a.z);
    let lw = a.w + fx_mul(t, bb.w - a.w);
    let l = Quat { x: lx, y: ly, z: lz, w: lw };
    proof {
        assert(l == qlerp_s(a, qalign_s(a, b), t as int));
    }
    match quat_normalize(l) {
        Some(r) => r,
        None => a,
    }
}

/// Rescales a quaternion to unit length; `None` exactly for the zero
/// quaternion, which has no direction to keep.
fn quat_normalize(q: Quat) -> (res: Option<Quat>)
    requires
        qbounded(q, 4 * QCOMP_MAX as int),
    ensures
        res is None <==> qnorm2(q) == 0,
        res is Some ==> res->Some_0 == qnormalize_s(q) && qbounded(
            res->Some_0, QCOMP_MAX as int),
{
    proof {
        assert(0 <= (q.x as int) * (q.x as int) <= 0x10000000000) by (nonlinear_arith)
            requires
                -0x100000 <= q.x <= 0x100000,
        ;
        assert(0 <= (q.y as int) * (q.y as int) <= 0x10000000000) by (nonlinear_arith)
            requires
                -0x100000 <= q.y <= 0x100000,
        ;
        assert(0 <= (q.z as int) * (q.z as int) <= 0x10000000000) by (nonlinear_arith)
            requires
                -0x100000 <= q.z <= 0x100000,
        ;
        assert(0 <= (q.w as int) * (q.w as int) <= 0x10000000000) by (nonlinear_arith)
            requires
                -0x100000 <= q.w <= 0x100000,
        ;
    }
    let xx: i64 = q.x * q.x;
    let yy: i64 = q.y * q.y;
    let zz: i64 = q.z * q.z;
    let ww: i64 = q.w * q.w;
    let n2: i64 = xx + yy + zz + ww;
    if n2 == 0 {
        return None;
    }
    let s64: u64 = isqrt64(n2 as u64);
    proof {
        assert(sqrt_floor(n2 as int) >= 1) by {
            if sqrt_floor(n2 as int) < 1 {
                assert((sqrt_floor(n2 as int) + 1) * (sqrt_floor(n2 as int) + 1) <= 1)
                    by (nonlinear_arith)
                    requires
                        0 <= sqrt_floor(n2 as int) < 1,
                ;
            }
        }
        assert(s64 >= 1);
        assert(s64 <= 0x200000) by (nonlinear_arith)
            requires
                (s64 as int) * (s64 as int) <= n2 as int,
                n2 <= 0x40000000000,
                s64 >= 0,
        ;
        assert(-(s64 as int) <= q.x as int <= s64 as int) by (nonlinear_arith)
            requires
                (q.x as int) * (q.x as int) <= n2 as int,
                (n2 as int) < ((s64 as int) + 1) * ((s64 as int) + 1),
                s64 >= 0,
        ;
        assert(-(s64 as int) <= q.y as int <= s64 as int) by (nonlinear_arith)
            requires
                (q.y as int) * (q.y as int) <= n2 as int,
                (n2 as int) < ((s64 as int) + 1) * ((s64 as int) + 1),
                s64 >= 0,
        ;
        assert(-(s64 as int) <= q.z as int <= s64 as int) by (nonlinear_arith)
            requires
                (q.z as int) * (q.z as int) <= n2 as int,
                (n2 as int) < ((s64 as int) + 1) * ((s64 as int) + 1),
                s64 >= 0,
        ;
        assert(-(s64 as int) <= q.w as int <= s64 as int) by (nonlinear_arith)
            requires
                (q.w as int) * (q.w as int) <= n2 as int,
                (n2 as int) < ((s64 as int) + 1) * ((s64 as int) + 1),
                s64 >= 0,
        ;
        crate::fixed::lemma_fxd_unit_interval(q.x as int, s64 as int);
        crate::fixed::lemma_fxd_unit_interval(q.y as int, s64 as int);
        crate::fixed::lemma_fxd_unit_interval(q.z as int, s64 as int);
        crate::fixed::lemma_fxd_unit_interval(q.w as int, s64 as int);
    }
    let s: i64 = s64 as i64;
    let res = Quat {
        x: fx_div(q.x, s),
        y: fx_div(q.y, s),
        z: fx_div(q.z, s),
        w: fx_div(q.w, s),
    };
    Some(res)
}

} // verus!
