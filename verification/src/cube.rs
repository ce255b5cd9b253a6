//! The built-in cube: 24 vertices (four per face, so each face keeps its
//! own normals and texture corners) and 36 indices, two triangles a face.
//! Coordinates are scaled fixed point; the cube spans one unit from the
//! origin along each axis, and each face is unwrapped onto the full
//! texture square.
use vstd::prelude::*;
use crate::fixed::FX_ONE;
use crate::tangent::{tangent_input_wf, tri_total, uv_det, PT_MAX};

verus! {

/// The cube's triangle indices: six faces of two triangles each, in fan
/// order over each face's four corners.
pub open spec fn cube_indices_seq() -> Seq<u16> {
    seq![
        0u16, 1, 2, 0, 2, 3,
        4, 5, 6, 4, 6, 7,
        8, 9, 10, 8, 10, 11,
        12, 13, 14, 12, 14, 15,
        16, 17, 18, 16, 18, 19,
        20, 21, 22, 20, 22, 23,
    ]
}

/// The cube's vertex positions: the four corners of each of the six unit
/// faces, three scaled coordinates per vertex.
pub open spec fn cube_positions_seq() -> Seq<i64> {
    let o = FX_ONE;
    let n = (-(FX_ONE as int)) as i64;
    seq![
        n, n, o, o, n, o, o, o, o, n, o, o,
        n, n, n, n, o, n, o, o, n, o, n, n,
        n, o, n, n, o, o, o, o, o, o, o, n,
        n, n, n, o, n, n, o, n, o, n, n, o,
        o, n, n, o, o, n, o, o, o, o, n, o,
        n, n, n, n, n, o, n, o, o, n, o, n,
    ]
}

/// The cube's vertex normals: one axis direction per face, repeated for
/// the face's four corners.
pub open spec fn cube_normals_seq() -> Seq<i64> {
    let o = FX_ONE;
    let n = (-(FX_ONE as int)) as i64;
    seq![
        0i64, 0, o, 0, 0, o, 0, 0, o, 0, 0, o,
        0, 0, n, 0, 0, n, 0, 0, n, 0, 0, n,
        0, o, 0, 0, o, 0, 0, o, 0, 0, o, 0,
        0, n, 0, 0, n, 0, 0, n, 0, 0, n, 0,
        o, 0, 0, o, 0, 0, o, 0, 0, o, 0, 0,
        n, 0, 0, n, 0, 0, n, 0, 0, n, 0, 0,
    ]
}

/// The cube's texture coordinates: each face unwrapped onto the full unit
/// square, corner by corner.
pub open spec fn cube_texcoords_seq() -> Seq<i64> {
    let o = FX_ONE;
    seq![
        0i64, 0, 0, o, o, o, o, 0,
        0, 0, 0, o, o, o, o, 0,
        0, 0, 0, o, o, o, o, 0,
        0, 0, 0, o, o, o, o, 0,
        0, 0, 0, o, o, o, o, 0,
        0, 0, 0, o, o, o, o, 0,
    ]
}

/// The cube's triangle index list.
pub fn cube_indices() -> (res: Vec<u16>)
    ensures
        res@ == cube_indices_seq(),
        res@.len() == 36,
        forall|i: int| 0 <= i < 36 ==> #[trigger] res@[i] < 24,
{
    let res: Vec<u16> = vec![
        0u16, 1, 2, 0, 2, 3,
        4, 5, 6, 4, 6, 7,
        8, 9, 10, 8, 10, 11,
        12, 13, 14, 12, 14, 15,
        16, 17, 18, 16, 18, 19,
        20, 21, 22, 20, 22, 23,
    ];
    proof {
        assert(res@ =~= cube_indices_seq());
    }
    res
}

/// The cube's vertex positions, three scaled coordinates per vertex.
pub fn cube_positions() -> (res: Vec<i64>)
    ensures
        res@ == cube_positions_seq(),
        res@.len() == 72,
{
    let o: i64 = FX_ONE;
    let n: i64 = -FX_ONE;
    let res: Vec<i64> = vec![
        n, n, o, o, n, o, o, o, o, n, o, o,
        n, n, n, n, o, n, o, o, n, o, n, n,
        n, o, n, n, o, o, o, o, o, o, o, n,
        n, n, n, o, n, n, o, n, o, n, n, o,
        o, n, n, o, o, n, o, o, o, o, n, o,
        n, n, n, n, n, o, n, o, o, n, o, n,
    ];
    proof {
        assert(res@ =~= cube_positions_seq());
    }
    res
}

/// The cube's vertex normals, one axis direction per face.
pub fn cube_normals() -> (res: Vec<i64>)
    ensures
        res@ == cube_normals_seq(),
        res@.len() == 72,
{
    let o: i64 = FX_ONE;
    let n: i64 = -FX_ONE;
    let res: Vec<i64> = vec![
        0, 0, o, 0, 0, o, 0, 0, o, 0, 0, o,
        0, 0, n, 0, 0, n, 0, 0, n, 0, 0, n,
        0, o, 0, 0, o, 0, 0, o, 0, 0, o, 0,
        0, n, 0, 0, n, 0, 0, n, 0, 0, n, 0,
        o, 0, 0, o, 0, 0, o, 0, 0, o, 0, 0,
        n, 0, 0, n, 0, 0, n, 0, 0, n, 0, 0,
    ];
    proof {
        assert(res@ =~= cube_normals_seq());
    }
    res
}

/// The cube's texture coordinates, two per vertex.
pub fn cube_texcoords() -> (res: Vec<i64>)
    ensures
        res@ == cube_texcoords_seq(),
        res@.len() == 48,
{
    let o: i64 = FX_ONE;
    let res: Vec<i64> = vec![
        0, 0, 0, o, o, o, o, 0,
        0, 0, 0, o, o, o, o, 0,
        0, 0, 0, o, o, o, o, 0,
        0, 0, 0, o, o, o, o, 0,
        0, 0, 0, o, o, o, o, 0,
        0, 0, 0, o, o, o, o, 0,
    ];
    proof {
        assert(res@ =~= cube_texcoords_seq());
    }
    res
}

/// The built-in cube's arrays satisfy everything the tangent generator
/// demands: whole triangles over the 24 expanded vertices, coordinates
/// within range, and a nonzero texture determinant for each of the twelve
/// triangles — so the generator is defined on the cube, with no divisions
/// by zero anywhere.
pub proof fn lemma_cube_tangent_input_wf()
    ensures
        tangent_input_wf(cube_indices_seq(), cube_positions_seq(), cube_texcoords_seq()),
{
    let ind = cube_indices_seq();
    let pos = cube_positions_seq();
    let uv = cube_texcoords_seq();
    assert(ind.len() == 36);
    assert(pos.len() == 72);
    assert(uv.len() == 48);
    assert forall|i: int| 0 <= i < 36 implies 3 * ((#[trigger] ind[i]) as int) + 3 <= 72
        && 2 * (ind[i] as int) + 2 <= 48 by {
        assert(ind[i] < 24);
    }
    assert forall|j: int| 0 <= j < 72 implies -PT_MAX <= #[trigger] pos[j] <= PT_MAX by {
        assert(-FX_ONE <= pos[j] <= FX_ONE);
    }
    assert forall|j: int| 0 <= j < 48 implies -PT_MAX <= #[trigger] uv[j] <= PT_MAX by {
        assert(0 <= uv[j] <= FX_ONE);
    }
    crate::fixed::lemma_fx_unit(0);
    crate::fixed::lemma_fx_unit(FX_ONE as int);
    assert(uv_det(ind, uv, 0) == -FX_ONE);
    assert(uv_det(ind, uv, 1) == -FX_ONE);
    assert(uv_det(ind, uv, 2) == -FX_ONE);
    assert(uv_det(ind, uv, 3) == -FX_ONE);
    assert(uv_det(ind, uv, 4) == -FX_ONE);
    assert(uv_det(ind, uv, 5) == -FX_ONE);
    assert(uv_det(ind, uv, 6) == -FX_ONE);
    assert(uv_det(ind, uv, 7) == -FX_ONE);
    assert(uv_det(ind, uv, 8) == -FX_ONE);
    assert(uv_det(ind, uv, 9) == -FX_ONE);
    assert(uv_det(ind, uv, 10) == -FX_ONE);
    assert(uv_det(ind, uv, 11) == -FX_ONE);
    assert(tri_total(ind) == 12);
    assert forall|t: int| 0 <= t < tri_total(ind) implies #[trigger] uv_det(ind, uv, t)
        != 0 by {
        assert(0 <= t < 12);
    }
}

} // verus!
