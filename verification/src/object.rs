//! A drawable instance: a model reference plus its transform.
//!
//! Each object carries three matrices — scale, rotation, translation — and
//! composes its world transform as `translation * rotation * scale`, so the
//! scale applies first and the translation last. The normal-correcting
//! matrix is the transposed inverse of the world transform.
use vstd::prelude::*;
use crate::fixed::{FX_ONE, fx, fxd, fx3s};
use crate::fixed::{lemma_fx_unit, lemma_fx3_units, lemma_fx3_zero, lemma_fxd_unit};
use crate::mat4::{Mat4, INV_MAX, MUL_MAX, ent, bounded, mm_ent, mm_seq, inv_ent, inv_seq,
    inv_fits, det4, cof, transpose_seq, identity_seq, translation_seq, mat_mul, try_inverse,
    transpose, is_bounded, lemma_mm_bounded};

verus! {

/// Largest entry magnitude an object's transform matrices may carry.
pub const OBJ_MAX: i64 = 0x3000000;

/// A model reference with the instance's own transform.
pub struct Object {
    /// Index of the shared model in the renderer's model arena.
    pub model: usize,
    pub scale: Mat4,
    pub rotation: Mat4,
    pub translation: Mat4,
}

impl Object {
    /// Three well-formed matrices with entries small enough to compose.
    pub open spec fn wf(&self) -> bool {
        &&& self.scale.wf()
        &&& self.rotation.wf()
        &&& self.translation.wf()
        &&& bounded(self.scale.m@, OBJ_MAX as int)
        &&& bounded(self.rotation.m@, OBJ_MAX as int)
        &&& bounded(self.translation.m@, OBJ_MAX as int)
    }

    /// The entries of this object's world transform.
    pub open spec fn world_seq(&self) -> Seq<i64> {
        mm_seq(self.translation.m@, mm_seq(self.rotation.m@, self.scale.m@))
    }

    /// The world transform `translation * rotation * scale`.
    pub fn world(&self) -> (res: Mat4)
        requires
            self.wf(),
        ensures
            res.wf(),
            res.m@ == self.world_seq(),
    {
        let rs = mat_mul(&self.rotation, &self.scale);
        proof {
            lemma_mm_bounded(self.rotation.m@, self.scale.m@, rs.m@, OBJ_MAX as int,
                OBJ_MAX as int);
        }
        mat_mul(&self.translation, &rs)
    }

    /// The transposed inverse of the world transform, which carries normals
    /// correctly under non-uniform scale. `None` exactly when the world
    /// transform leaves the invertible range: a vanishing determinant or an
    /// entry out of bounds.
    pub fn world_inverse_transpose(&self) -> (res: Option<Mat4>)
        requires
            self.wf(),
        ensures
            res is Some <==> bounded(self.world_seq(), INV_MAX as int) && inv_fits(
                self.world_seq()),
            res is Some ==> {
                let wit = res->Some_0;
                &&& wit.wf()
                &&& wit.m@ == transpose_seq(inv_seq(self.world_seq()))
            },
    {
        let w = self.world();
        if !is_bounded(&w, INV_MAX) {
            return None;
        }
        let inv = try_inverse(&w);
        match inv {
            Some(invm) => Some(transpose(&invm)),
            None => None,
        }
    }
}

/// With identity scale and identity rotation the world transform collapses
/// exactly to the pure translation matrix. (The companion lemma
/// `lemma_translation_inverse` pins down the transposed inverse of that
/// world transform.)
pub proof fn lemma_world_pure_translation(tx: i64, ty: i64, tz: i64)
    ensures
        mm_seq(translation_seq(tx, ty, tz), mm_seq(identity_seq(), identity_seq()))
            == translation_seq(tx, ty, tz),
{
    lemma_identity_product();
    lemma_translation_times_identity(tx, ty, tz);
    let tt = translation_seq(tx, ty, tz);
    let ii = identity_seq();
    assert(mm_seq(tt, mm_seq(ii, ii)) =~= mm_seq(tt, ii)) by {
        assert forall|i: int| 0 <= i < 16 implies #[trigger] mm_seq(tt, mm_seq(ii, ii))[i]
            == mm_seq(tt, ii)[i] by {
            assert(mm_seq(ii, ii) == ii);
        }
    }
}

/// The identity composed with itself stays the identity.
proof fn lemma_identity_product()
    ensures
        mm_seq(identity_seq(), identity_seq()) == identity_seq(),
{
    let ii = identity_seq();
    lemma_fx_unit(0);
    lemma_fx_unit(FX_ONE as int);
    assert(mm_seq(ii, ii) =~= ii) by {
        assert forall|i: int| 0 <= i < 16 implies #[trigger] mm_seq(ii, ii)[i] == ii[i] by {
            vstd::arithmetic::div_mod::lemma_fundamental_div_mod(i, 4);
            vstd::arithmetic::div_mod::lemma_mod_pos_bound(i, 4);
        }
    }
}

/// Composing a pure translation with the identity changes nothing.
proof fn lemma_translation_times_identity(tx: i64, ty: i64, tz: i64)
    ensures
        mm_seq(translation_seq(tx, ty, tz), identity_seq()) == translation_seq(tx, ty, tz),
{
    let tt = translation_seq(tx, ty, tz);
    let ii = identity_seq();
    lemma_fx_unit(0);
    lemma_fx_unit(FX_ONE as int);
    lemma_fx_unit(tx as int);
    lemma_fx_unit(ty as int);
    lemma_fx_unit(tz as int);
    assert(mm_seq(tt, ii) =~= tt) by {
        assert forall|i: int| 0 <= i < 16 implies #[trigger] mm_seq(tt, ii)[i] == tt[i] by {
            vstd::arithmetic::div_mod::lemma_fundamental_div_mod(i, 4);
            vstd::arithmetic::div_mod::lemma_mod_pos_bound(i, 4);
        }
    }
}

/// A pure translation is exactly invertible: its determinant is the unit,
/// its inverse is the opposite translation, and its transposed inverse
/// carries the identity in the rotational 3x3 block and the negated
/// translation in the bottom row — so normals are left untouched.
pub proof fn lemma_translation_inverse(tx: i64, ty: i64, tz: i64)
    requires
        -INV_MAX <= tx <= INV_MAX,
        -INV_MAX <= ty <= INV_MAX,
        -INV_MAX <= tz <= INV_MAX,
    ensures
        det4(translation_seq(tx, ty, tz)) == FX_ONE,
        inv_fits(translation_seq(tx, ty, tz)),
        inv_seq(translation_seq(tx, ty, tz)) == translation_seq(
            (-(tx as int)) as i64, (-(ty as int)) as i64, (-(tz as int)) as i64),
        forall|r: int, c: int|
            0 <= r < 3 && 0 <= c < 3 ==> ent(
                transpose_seq(inv_seq(translation_seq(tx, ty, tz))), r, c) == (
            if r == c {
                FX_ONE as int
            } else {
                0
            }),
        ent(transpose_seq(inv_seq(translation_seq(tx, ty, tz))), 3, 0) == -tx,
        ent(transpose_seq(inv_seq(translation_seq(tx, ty, tz))), 3, 1) == -ty,
        ent(transpose_seq(inv_seq(translation_seq(tx, ty, tz))), 3, 2) == -tz,
{
    let tt = translation_seq(tx, ty, tz);
    lemma_fx3_units(FX_ONE as int);
    lemma_fx3_units(tx as int);
    lemma_fx3_units(ty as int);
    lemma_fx3_units(tz as int);
    lemma_fx3_zero(0, 0);
    lemma_fx3_zero(0, FX_ONE as int);
    lemma_fx3_zero(FX_ONE as int, 0);
    lemma_fx3_zero(FX_ONE as int, FX_ONE as int);
    lemma_fx3_zero(tx as int, 0);
    lemma_fx3_zero(0, tx as int);
    lemma_fx3_zero(tx as int, FX_ONE as int);
    lemma_fx3_zero(FX_ONE as int, tx as int);
    lemma_fx3_zero(ty as int, 0);
    lemma_fx3_zero(0, ty as int);
    lemma_fx3_zero(ty as int, FX_ONE as int);
    lemma_fx3_zero(FX_ONE as int, ty as int);
    lemma_fx3_zero(tz as int, 0);
    lemma_fx3_zero(0, tz as int);
    lemma_fx3_zero(tz as int, FX_ONE as int);
    lemma_fx3_zero(FX_ONE as int, tz as int);
    assert(cof(tt, 0, 0) == FX_ONE);
    assert(cof(tt, 0, 1) == 0);
    assert(cof(tt, 0, 2) == 0);
    assert(cof(tt, 0, 3) == 0);
    assert(cof(tt, 1, 0) == 0);
    assert(cof(tt, 1, 1) == FX_ONE);
    assert(cof(tt, 1, 2) == 0);
    assert(cof(tt, 1, 3) == 0);
    assert(cof(tt, 2, 0) == 0);
    assert(cof(tt, 2, 1) == 0);
    assert(cof(tt, 2, 2) == FX_ONE);
    assert(cof(tt, 2, 3) == 0);
    assert(cof(tt, 3, 0) == -tx);
    assert(cof(tt, 3, 1) == -ty);
    assert(cof(tt, 3, 2) == -tz);
    assert(cof(tt, 3, 3) == FX_ONE);
    lemma_fx_unit(cof(tt, 0, 0));
    lemma_fx_unit(cof(tt, 1, 0));
    lemma_fx_unit(cof(tt, 2, 0));
    lemma_fx_unit(cof(tt, 3, 0));
    assert(det4(tt) == FX_ONE);
    lemma_fxd_unit(FX_ONE as int);
    lemma_fxd_unit(0);
    lemma_fxd_unit(-(tx as int));
    lemma_fxd_unit(-(ty as int));
    lemma_fxd_unit(-(tz as int));
    assert(inv_ent(tt, 0, 0) == FX_ONE);
    assert(inv_ent(tt, 1, 1) == FX_ONE);
    assert(inv_ent(tt, 2, 2) == FX_ONE);
    assert(inv_ent(tt, 3, 3) == FX_ONE);
    assert(inv_ent(tt, 0, 3) == -tx);
    assert(inv_ent(tt, 1, 3) == -ty);
    assert(inv_ent(tt, 2, 3) == -tz);
    assert(inv_ent(tt, 0, 1) == 0);
    assert(inv_ent(tt, 0, 2) == 0);
    assert(inv_ent(tt, 1, 0) == 0);
    assert(inv_ent(tt, 1, 2) == 0);
    assert(inv_ent(tt, 2, 0) == 0);
    assert(inv_ent(tt, 2, 1) == 0);
    assert(inv_ent(tt, 3, 0) == 0);
    assert(inv_ent(tt, 3, 1) == 0);
    assert(inv_ent(tt, 3, 2) == 0);
    assert forall|r: int, c: int| 0 <= r < 4 && 0 <= c < 4 implies i64::MIN <= #[trigger]
        inv_ent(tt, r, c) <= i64::MAX by {
    }
    assert(inv_fits(tt));
    let nt = translation_seq((-(tx as int)) as i64, (-(ty as int)) as i64, (-(tz as int)) as i64);
    assert(inv_seq(tt) =~= nt) by {
        assert forall|i: int| 0 <= i < 16 implies #[trigger] inv_seq(tt)[i] == nt[i] by {
            vstd::arithmetic::div_mod::lemma_fundamental_div_mod(i, 4);
            vstd::arithmetic::div_mod::lemma_mod_pos_bound(i, 4);
        }
    }
    assert forall|r: int, c: int| 0 <= r < 4 && 0 <= c < 4 implies #[trigger] ent(
        transpose_seq(inv_seq(tt)), r, c) == inv_ent(tt, c, r) by {
        vstd::arithmetic::div_mod::lemma_fundamental_div_mod_converse(c * 4 + r, 4, c, r);
        vstd::arithmetic::div_mod::lemma_fundamental_div_mod_converse(r * 4 + c, 4, r, c);
    }
}

} // verus!
