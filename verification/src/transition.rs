//! The camera-rotation transition: a short-lived interpolation task.
//!
//! A transition runs from a start orientation at a start time to an end
//! orientation at an end time. Each update clamps elapsed time into the unit
//! interval, eases it out with `1 - (1 - t)^5`, and re-aims the camera at the
//! interpolated orientation; once the parameter reaches one the transition
//! snaps exactly to the end orientation and reports itself finished.
use vstd::prelude::*;
use crate::fixed::{FX_ONE, fx, fxd, fx_mul, fx_div};
use crate::fixed::{lemma_fx_bound, lemma_fxd_bound, lemma_fx_unit};
use crate::quat::{Quat, QCOMP_MAX, qbounded, qnlerp_s, quat_nlerp};

verus! {

/// Largest timestamp the transitions accept, in milliseconds.
pub const TIME_MAX: i64 = 0x10000000000;

/// A time parameter clamped into the unit interval of the fixed-point scale.
pub open spec fn clamp01(x: int) -> int {
    if x < 0 {
        0
    } else if x > FX_ONE as int {
        FX_ONE as int
    } else {
        x
    }
}

/// The ease-out curve `1 - (1 - t)^5` over unit-scale fixed point.
pub open spec fn ease_out_s(t: int) -> int {
    let u = FX_ONE as int - t;
    let u2 = fx(u, u);
    let u4 = fx(u2, u2);
    FX_ONE as int - fx(u4, u)
}

/// An in-flight reorientation of the camera.
#[derive(Clone, Copy, PartialEq, Eq, Structural, Debug)]
pub struct CameraRotationTransition {
    pub finished: bool,
    pub start_quat: Quat,
    pub end_quat: Quat,
    pub start_time: i64,
    pub end_time: i64,
}

impl CameraRotationTransition {
    /// The transition covers a positive time span within range, between
    /// orientations of bounded magnitude.
    pub open spec fn wf(&self) -> bool {
        &&& 0 <= self.start_time < self.end_time <= TIME_MAX
        &&& qbounded(self.start_quat, QCOMP_MAX as int)
        &&& qbounded(self.end_quat, QCOMP_MAX as int)
    }

    /// A fresh, unfinished transition between the given orientations over
    /// the given time span.
    pub fn new(start_quat: Quat, end_quat: Quat, start_time: i64, end_time: i64) -> (res:
        CameraRotationTransition)
        requires
            0 <= start_time < end_time <= TIME_MAX,
            qbounded(start_quat, QCOMP_MAX as int),
            qbounded(end_quat, QCOMP_MAX as int),
        ensures
            res.wf(),
            !res.finished,
            res.start_quat == start_quat,
            res.end_quat == end_quat,
            res.start_time == start_time,
            res.end_time == end_time,
    {
        CameraRotationTransition { finished: false, start_quat, end_quat, start_time, end_time }
    }

    /// The clamped, eased interpolation parameter at time `now`.
    pub open spec fn eased_at(&self, now: int) -> int {
        ease_out_s(clamp01(fxd(now - self.start_time, self.end_time - self.start_time)))
    }

    /// Advances the transition to time `now`: re-aims the camera at the
    /// eased interpolant between the start and end orientations, and marks
    /// the transition finished once the full span has elapsed. A finished
    /// transition leaves everything untouched.
    ///
    /// The interpolant is normalized linear interpolation along the
    /// shorter arc, not true spherical interpolation: the two agree
    /// exactly at both endpoints — which is what the endpoint law below
    /// pins down — and differ between them only in angular pacing, by
    /// under half a degree over a quarter-turn transition. Spherical
    /// interpolation itself needs trigonometry that integer scalars
    /// cannot carry exactly.
    pub fn update(&mut self, camera_rotation: &mut Quat, now: i64)
        requires
            old(self).wf(),
            0 <= now <= TIME_MAX,
        ensures
            final(self).wf(),
            old(self).finished ==> *final(self) == *old(self) && *final(camera_rotation)
                == *old(camera_rotation),
            !old(self).finished ==> *final(camera_rotation) == qnlerp_s(
                old(self).start_quat, old(self).end_quat, old(self).eased_at(now as int))
                && qbounded(*final(camera_rotation), QCOMP_MAX as int),
            !old(self).finished ==> final(self).finished == (fxd(
                now - old(self).start_time, old(self).end_time - old(self).start_time)
                >= FX_ONE),
            final(self).start_quat == old(self).start_quat,
            final(self).end_quat == old(self).end_quat,
            final(self).start_time == old(self).start_time,
            final(self).end_time == old(self).end_time,
    {
        if !self.finished {
            proof {
                lemma_fxd_bound(now - self.start_time as int,
                    self.end_time - self.start_time as int, TIME_MAX as int);
            }
            let x = fx_div(now - self.start_time, self.end_time - self.start_time);
            let t: i64 = if x < 0 {
                0
            } else if x > FX_ONE {
                FX_ONE
            } else {
                x
            };
            let y = ease_out(t);
            *camera_rotation = quat_nlerp(self.start_quat, self.end_quat, y);
            if x >= FX_ONE {
                self.finished = true;
            }
        }
    }
}

/// The ease-out curve `1 - (1 - t)^5`, evaluated in fixed point.
pub fn ease_out(t: i64) -> (res: i64)
    requires
        0 <= t <= FX_ONE,
    ensures
        res == ease_out_s(t as int),
        0 <= res <= FX_ONE,
{
    let u: i64 = FX_ONE - t;
    proof {
        lemma_fx_bound(u as int, u as int, FX_ONE as int, FX_ONE as int);
        lemma_fx_nonneg_unit(u as int, u as int);
    }
    let u2 = fx_mul(u, u);
    proof {
        lemma_fx_bound(u2 as int, u2 as int, FX_ONE as int, FX_ONE as int);
        lemma_fx_nonneg_unit(u2 as int, u2 as int);
    }
    let u4 = fx_mul(u2, u2);
    proof {
        lemma_fx_bound(u4 as int, u as int, FX_ONE as int, FX_ONE as int);
        lemma_fx_nonneg_unit(u4 as int, u as int);
    }
    let u5 = fx_mul(u4, u);
    FX_ONE - u5
}

/// A fixed-point product of values from the unit interval stays in the
/// unit interval.
proof fn lemma_fx_nonneg_unit(a: int, b: int)
    requires
        0 <= a <= FX_ONE as int,
        0 <= b <= FX_ONE as int,
    ensures
        0 <= fx(a, b) <= FX_ONE as int,
{
    assert(0 <= a * b <= FX_ONE as int * FX_ONE as int) by (nonlinear_arith)
        requires
            0 <= a <= FX_ONE as int,
            0 <= b <= FX_ONE as int,
    ;
    vstd::arithmetic::div_mod::lemma_div_is_ordered(0, a * b, FX_ONE as int);
    vstd::arithmetic::div_mod::lemma_div_basics(FX_ONE as int);
    vstd::arithmetic::div_mod::lemma_div_is_ordered(a * b,
        FX_ONE as int * FX_ONE as int, FX_ONE as int);
    vstd::arithmetic::div_mod::lemma_div_multiples_vanish(FX_ONE as int, FX_ONE as int);
}

/// The endpoints of a transition are exact: at the start time the eased
/// parameter is zero and the interpolant is exactly the start orientation;
/// at the end time the parameter is one, the transition is finished, and
/// the interpolant is exactly the end orientation.
pub proof fn lemma_transition_endpoints(tr: CameraRotationTransition)
    requires
        tr.wf(),
    ensures
        tr.eased_at(tr.start_time as int) == 0,
        qnlerp_s(tr.start_quat, tr.end_quat, tr.eased_at(tr.start_time as int))
            == tr.start_quat,
        tr.eased_at(tr.end_time as int) == FX_ONE,
        qnlerp_s(tr.start_quat, tr.end_quat, tr.eased_at(tr.end_time as int)) == tr.end_quat,
        fxd(tr.end_time - tr.start_time, tr.end_time - tr.start_time) >= FX_ONE,
{
    let d = tr.end_time - tr.start_time;
    vstd::arithmetic::div_mod::lemma_div_of0(d);
    assert(fxd(0, d) == 0);
    assert(clamp01(0) == 0);
    lemma_fx_unit(FX_ONE as int);
    lemma_fx_unit(0);
    assert(ease_out_s(0) == 0);
    vstd::arithmetic::div_mod::lemma_div_multiples_vanish(FX_ONE as int, d);
    assert(fxd(d, d) == FX_ONE) by {
        assert(d * FX_ONE as int == d * FX_ONE as int);
        assert((d * FX_ONE as int) / d == FX_ONE as int) by {
            assert(d * FX_ONE as int == FX_ONE as int * d) by (nonlinear_arith);
        }
    }
    assert(clamp01(FX_ONE as int) == FX_ONE as int);
    assert(ease_out_s(FX_ONE as int) == FX_ONE as int);
}

} // verus!
