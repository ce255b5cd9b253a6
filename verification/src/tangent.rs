//! Per-triangle tangent-space generation for normal mapping.
//!
//! Triangles are read as index triples. For each triangle the object-space
//! edges and texture-space edges span a 2x2 linear system; solving it gives
//! one tangent and one bitangent for the whole triangle, which are written to
//! all three of its vertex slots. A vertex shared between triangles keeps the
//! values of the last triangle that touched it — the generator overwrites
//! rather than averages, deliberately.
use vstd::prelude::*;
use crate::fixed::{FX_ONE, fx, fxd, fx_mul, fx_div};
use crate::fixed::{lemma_fx_bound, lemma_fxd_bound_any};

verus! {

/// Largest coordinate magnitude the generator accepts, in scaled units.
pub const PT_MAX: i64 = 0x10000000;

/// Vertex index at corner `k` of triangle `t`.
pub open spec fn corner(ind: Seq<u16>, t: int, k: int) -> int {
    ind[3 * t + k] as int
}

/// Coordinate `c` of the position of vertex `v`.
pub open spec fn pos_at(pos: Seq<i64>, v: int, c: int) -> int {
    pos[3 * v + c] as int
}

/// Coordinate `c` of the texture coordinates of vertex `v`.
pub open spec fn uv_at(uv: Seq<i64>, v: int, c: int) -> int {
    uv[2 * v + c] as int
}

/// Coordinate `c` of object-space edge `k` (corner `k` minus corner 0).
pub open spec fn edge(ind: Seq<u16>, pos: Seq<i64>, t: int, k: int, c: int) -> int {
    pos_at(pos, corner(ind, t, k), c) - pos_at(pos, corner(ind, t, 0), c)
}

/// Coordinate `c` of texture-space edge `k` (corner `k` minus corner 0).
pub open spec fn uv_edge(ind: Seq<u16>, uv: Seq<i64>, t: int, k: int, c: int) -> int {
    uv_at(uv, corner(ind, t, k), c) - uv_at(uv, corner(ind, t, 0), c)
}

/// Scaled determinant of triangle `t`'s texture-space edges; zero exactly
/// when the triangle's texture mapping is degenerate.
pub open spec fn uv_det(ind: Seq<u16>, uv: Seq<i64>, t: int) -> int {
    fx(uv_edge(ind, uv, t, 1, 0), uv_edge(ind, uv, t, 2, 1)) - fx(
        uv_edge(ind, uv, t, 1, 1), uv_edge(ind, uv, t, 2, 0))
}

/// Component `c` of triangle `t`'s tangent: `(e1 * d2.y - e2 * d1.y) / det`.
pub open spec fn tri_tangent(ind: Seq<u16>, pos: Seq<i64>, uv: Seq<i64>, t: int, c: int) -> int {
    fxd(
        fx(edge(ind, pos, t, 1, c), uv_edge(ind, uv, t, 2, 1)) - fx(
            edge(ind, pos, t, 2, c), uv_edge(ind, uv, t, 1, 1)),
        uv_det(ind, uv, t),
    )
}

/// Component `c` of triangle `t`'s bitangent: `(e2 * d1.x - e1 * d2.x) / det`.
pub open spec fn tri_bitangent(ind: Seq<u16>, pos: Seq<i64>, uv: Seq<i64>, t: int, c: int) -> int {
    fxd(
        fx(edge(ind, pos, t, 2, c), uv_edge(ind, uv, t, 1, 0)) - fx(
            edge(ind, pos, t, 1, c), uv_edge(ind, uv, t, 2, 0)),
        uv_det(ind, uv, t),
    )
}

/// Number of triangles described by the index list.
pub open spec fn tri_total(ind: Seq<u16>) -> int {
    ind.len() as int / 3
}

/// What the generator demands of its input: whole triangles, indices inside
/// the vertex arrays, coordinates within range, and no degenerate texture
/// mapping. A triangle whose texture determinant vanishes has no tangent
/// frame at all — that is a documented defect class the caller must avoid,
/// not something the generator papers over.
pub open spec fn tangent_input_wf(ind: Seq<u16>, pos: Seq<i64>, uv: Seq<i64>) -> bool {
    &&& ind.len() % 3 == 0
    &&& forall|i: int|
        0 <= i < ind.len() ==> 3 * ((#[trigger] ind[i]) as int) + 3 <= pos.len()
            && 2 * (ind[i] as int) + 2 <= uv.len()
    &&& forall|j: int| 0 <= j < pos.len() ==> -PT_MAX <= #[trigger] pos[j] <= PT_MAX
    &&& forall|j: int| 0 <= j < uv.len() ==> -PT_MAX <= #[trigger] uv[j] <= PT_MAX
    &&& forall|t: int| 0 <= t < tri_total(ind) ==> #[trigger] uv_det(ind, uv, t) != 0
}

/// Writes triangle `t`'s tangent into the slots of all three of its corners.
pub open spec fn write_tri(
    s: Seq<i64>, ind: Seq<u16>, pos: Seq<i64>, uv: Seq<i64>, t: int, bitan: bool,
) -> Seq<i64> {
    let v0 = corner(ind, t, 0);
    let v1 = corner(ind, t, 1);
    let v2 = corner(ind, t, 2);
    let cx = if bitan {
        tri_bitangent(ind, pos, uv, t, 0) as i64
    } else {
        tri_tangent(ind, pos, uv, t, 0) as i64
    };
    let cy = if bitan {
        tri_bitangent(ind, pos, uv, t, 1) as i64
    } else {
        tri_tangent(ind, pos, uv, t, 1) as i64
    };
    let cz = if bitan {
        tri_bitangent(ind, pos, uv, t, 2) as i64
    } else {
        tri_tangent(ind, pos, uv, t, 2) as i64
    };
    s.update(3 * v0 + 0, cx).update(3 * v0 + 1, cy).update(3 * v0 + 2, cz).update(
        3 * v1 + 0, cx).update(3 * v1 + 1, cy).update(3 * v1 + 2, cz).update(
        3 * v2 + 0, cx).update(3 * v2 + 1, cy).update(3 * v2 + 2, cz)
}

/// The tangent (or bitangent) array after the first `k` triangles have been
/// processed in order, starting from all zeroes.
pub open spec fn slots_after(
    ind: Seq<u16>, pos: Seq<i64>, uv: Seq<i64>, k: int, bitan: bool,
) -> Seq<i64>
    decreases k,
{
    if k <= 0 {
        Seq::new(pos.len(), |i: int| 0i64)
    } else {
        write_tri(slots_after(ind, pos, uv, k - 1, bitan), ind, pos, uv, k - 1, bitan)
    }
}

/// Component `c` of the exact, unrounded tangent numerator
/// `e1 * d2.y - e2 * d1.y`; the generated tangent computes the same
/// combination with each product rounded once, then divides by the
/// determinant.
pub open spec fn tangent_numer(ind: Seq<u16>, pos: Seq<i64>, uv: Seq<i64>, t: int, c: int) -> int {
    edge(ind, pos, t, 1, c) * uv_edge(ind, uv, t, 2, 1) - edge(ind, pos, t, 2, c) * uv_edge(
        ind, uv, t, 1, 1)
}

/// Component `c` of the exact, unrounded bitangent numerator
/// `e2 * d1.x - e1 * d2.x`.
pub open spec fn bitangent_numer(
    ind: Seq<u16>, pos: Seq<i64>, uv: Seq<i64>, t: int, c: int,
) -> int {
    edge(ind, pos, t, 2, c) * uv_edge(ind, uv, t, 1, 0) - edge(ind, pos, t, 1, c) * uv_edge(
        ind, uv, t, 2, 0)
}

/// Component `c` of the triangle's normal direction, the cross product of
/// its two object-space edges.
pub open spec fn tri_normal(ind: Seq<u16>, pos: Seq<i64>, t: int, c: int) -> int {
    if c == 0 {
        edge(ind, pos, t, 1, 1) * edge(ind, pos, t, 2, 2) - edge(ind, pos, t, 1, 2) * edge(
            ind, pos, t, 2, 1)
    } else if c == 1 {
        edge(ind, pos, t, 1, 2) * edge(ind, pos, t, 2, 0) - edge(ind, pos, t, 1, 0) * edge(
            ind, pos, t, 2, 2)
    } else {
        edge(ind, pos, t, 1, 0) * edge(ind, pos, t, 2, 1) - edge(ind, pos, t, 1, 1) * edge(
            ind, pos, t, 2, 0)
    }
}

/// Any linear combination of two vectors is exactly orthogonal to their
/// cross product.
proof fn lemma_combo_dot_cross(
    ax: int, ay: int, az: int, bx: int, by: int, bz: int, p: int, q: int,
)
    ensures
        (p * ax - q * bx) * (ay * bz - az * by) + (p * ay - q * by) * (az * bx - ax * bz) + (
        p * az - q * bz) * (ax * by - ay * bx) == 0,
{
    let nx = ay * bz - az * by;
    let ny = az * bx - ax * bz;
    let nz = ax * by - ay * bx;
    assert(ax * nx + ay * ny + az * nz == 0) by (nonlinear_arith)
        requires
            nx == ay * bz - az * by,
            ny == az * bx - ax * bz,
            nz == ax * by - ay * bx,
    ;
    assert(bx * nx + by * ny + bz * nz == 0) by (nonlinear_arith)
        requires
            nx == ay * bz - az * by,
            ny == az * bx - ax * bz,
            nz == ax * by - ay * bx,
    ;
    lemma_combo_zero(ax, ay, az, bx, by, bz, nx, ny, nz, p, q);
}

/// A linear combination of two vectors stays orthogonal to anything both
/// are orthogonal to.
proof fn lemma_combo_zero(
    ax: int, ay: int, az: int, bx: int, by: int, bz: int, nx: int, ny: int, nz: int, p: int,
    q: int,
)
    requires
        ax * nx + ay * ny + az * nz == 0,
        bx * nx + by * ny + bz * nz == 0,
    ensures
        (p * ax - q * bx) * nx + (p * ay - q * by) * ny + (p * az - q * bz) * nz == 0,
{
    assert((p * ax - q * bx) * nx == p * (ax * nx) - q * (bx * nx)) by (nonlinear_arith);
    assert((p * ay - q * by) * ny == p * (ay * ny) - q * (by * ny)) by (nonlinear_arith);
    assert((p * az - q * bz) * nz == p * (az * nz) - q * (bz * nz)) by (nonlinear_arith);
    assert(p * (ax * nx) + p * (ay * ny) + p * (az * nz) == p * (ax * nx + ay * ny + az * nz))
        by (nonlinear_arith);
    assert(q * (bx * nx) + q * (by * ny) + q * (bz * nz) == q * (bx * nx + by * ny + bz * nz))
        by (nonlinear_arith);
    assert(p * (ax * nx + ay * ny + az * nz) == 0) by (nonlinear_arith)
        requires
            ax * nx + ay * ny + az * nz == 0,
    ;
    assert(q * (bx * nx + by * ny + bz * nz) == 0) by (nonlinear_arith)
        requires
            bx * nx + by * ny + bz * nz == 0,
    ;
}

/// Each triangle's unrounded tangent and bitangent numerators are linear
/// combinations of the triangle's edges, so they lie in the triangle's
/// plane: their dot products with the triangle normal vanish exactly.
pub proof fn lemma_tangent_in_plane(ind: Seq<u16>, pos: Seq<i64>, uv: Seq<i64>, t: int)
    ensures
        tangent_numer(ind, pos, uv, t, 0) * tri_normal(ind, pos, t, 0) + tangent_numer(
            ind, pos, uv, t, 1) * tri_normal(ind, pos, t, 1) + tangent_numer(ind, pos, uv, t, 2)
            * tri_normal(ind, pos, t, 2) == 0,
        bitangent_numer(ind, pos, uv, t, 0) * tri_normal(ind, pos, t, 0) + bitangent_numer(
            ind, pos, uv, t, 1) * tri_normal(ind, pos, t, 1) + bitangent_numer(ind, pos, uv, t, 2)
            * tri_normal(ind, pos, t, 2) == 0,
{
    let ax = edge(ind, pos, t, 1, 0);
    let ay = edge(ind, pos, t, 1, 1);
    let az = edge(ind, pos, t, 1, 2);
    let bx = edge(ind, pos, t, 2, 0);
    let by = edge(ind, pos, t, 2, 1);
    let bz = edge(ind, pos, t, 2, 2);
    lemma_combo_dot_cross(ax, ay, az, bx, by, bz, uv_edge(ind, uv, t, 2, 1),
        uv_edge(ind, uv, t, 1, 1));
    let p = uv_edge(ind, uv, t, 1, 0);
    let q = uv_edge(ind, uv, t, 2, 0);
    lemma_combo_dot_cross(bx, by, bz, ax, ay, az, p, q);
    assert((p * bx - q * ax) * (by * az - bz * ay) + (p * by - q * ay) * (bz * ax - bx * az) + (
        p * bz - q * az) * (bx * ay - by * ax) == 0);
    assert(bitangent_numer(ind, pos, uv, t, 0) * tri_normal(ind, pos, t, 0) + bitangent_numer(
        ind, pos, uv, t, 1) * tri_normal(ind, pos, t, 1) + bitangent_numer(ind, pos, uv, t, 2)
        * tri_normal(ind, pos, t, 2) == 0) by (nonlinear_arith)
        requires
            (p * bx - q * ax) * (by * az - bz * ay) + (p * by - q * ay) * (bz * ax - bx * az) + (
            p * bz - q * az) * (bx * ay - by * ax) == 0,
            bitangent_numer(ind, pos, uv, t, 0) == p * bx - q * ax,
            bitangent_numer(ind, pos, uv, t, 1) == p * by - q * ay,
            bitangent_numer(ind, pos, uv, t, 2) == p * bz - q * az,
            tri_normal(ind, pos, t, 0) == ay * bz - az * by,
            tri_normal(ind, pos, t, 1) == az * bx - ax * bz,
            tri_normal(ind, pos, t, 2) == ax * by - ay * bx,
    ;
}

/// On well-formed input every triangle's tangent and bitangent components
/// are representable scalars.
pub proof fn lemma_tri_values_fit(ind: Seq<u16>, pos: Seq<i64>, uv: Seq<i64>, t: int, c: int)
    requires
        tangent_input_wf(ind, pos, uv),
        0 <= t < tri_total(ind),
        0 <= c < 3,
    ensures
        i64::MIN <= tri_tangent(ind, pos, uv, t, c) <= i64::MAX,
        i64::MIN <= tri_bitangent(ind, pos, uv, t, c) <= i64::MAX,
{
    vstd::arithmetic::div_mod::lemma_fundamental_div_mod(ind.len() as int, 3);
    vstd::arithmetic::div_mod::lemma_mod_pos_bound(ind.len() as int, 3);
    assert(3 * t + 2 < ind.len());
    assert(3 * corner(ind, t, 0) + 3 <= pos.len() && 2 * corner(ind, t, 0) + 2 <= uv.len());
    assert(3 * corner(ind, t, 1) + 3 <= pos.len() && 2 * corner(ind, t, 1) + 2 <= uv.len());
    assert(3 * corner(ind, t, 2) + 3 <= pos.len() && 2 * corner(ind, t, 2) + 2 <= uv.len());
    lemma_fx_bound(edge(ind, pos, t, 1, c), uv_edge(ind, uv, t, 2, 1), 2 * PT_MAX as int,
        2 * PT_MAX as int);
    lemma_fx_bound(edge(ind, pos, t, 2, c), uv_edge(ind, uv, t, 1, 1), 2 * PT_MAX as int,
        2 * PT_MAX as int);
    lemma_fx_bound(edge(ind, pos, t, 2, c), uv_edge(ind, uv, t, 1, 0), 2 * PT_MAX as int,
        2 * PT_MAX as int);
    lemma_fx_bound(edge(ind, pos, t, 1, c), uv_edge(ind, uv, t, 2, 0), 2 * PT_MAX as int,
        2 * PT_MAX as int);
    assert(uv_det(ind, uv, t) != 0);
    lemma_fxd_bound_any(
        fx(edge(ind, pos, t, 1, c), uv_edge(ind, uv, t, 2, 1)) - fx(
            edge(ind, pos, t, 2, c), uv_edge(ind, uv, t, 1, 1)),
        uv_det(ind, uv, t),
        0x100000000000,
    );
    lemma_fxd_bound_any(
        fx(edge(ind, pos, t, 2, c), uv_edge(ind, uv, t, 1, 0)) - fx(
            edge(ind, pos, t, 1, c), uv_edge(ind, uv, t, 2, 0)),
        uv_det(ind, uv, t),
        0x100000000000,
    );
}

/// The generated arrays always keep one scalar per position scalar.
pub proof fn lemma_slots_len(ind: Seq<u16>, pos: Seq<i64>, uv: Seq<i64>, k: int, bitan: bool)
    requires
        tangent_input_wf(ind, pos, uv),
        k <= tri_total(ind),
    ensures
        slots_after(ind, pos, uv, k, bitan).len() == pos.len(),
    decreases k,
{
    if k > 0 {
        lemma_slots_len(ind, pos, uv, k - 1, bitan);
        vstd::arithmetic::div_mod::lemma_fundamental_div_mod(ind.len() as int, 3);
        vstd::arithmetic::div_mod::lemma_mod_pos_bound(ind.len() as int, 3);
        assert(3 * (k - 1) + 2 < ind.len());
        assert(3 * corner(ind, k - 1, 0) + 3 <= pos.len());
        assert(3 * corner(ind, k - 1, 1) + 3 <= pos.len());
        assert(3 * corner(ind, k - 1, 2) + 3 <= pos.len());
    }
}

/// A slot untouched by the triangles `k1` up to `k2` keeps its value.
proof fn lemma_untouched_slot(
    ind: Seq<u16>, pos: Seq<i64>, uv: Seq<i64>, k1: int, k2: int, j: int, bitan: bool,
)
    requires
        tangent_input_wf(ind, pos, uv),
        0 <= k1 <= k2 <= tri_total(ind),
        0 <= j < pos.len(),
        forall|t: int, k: int|
            k1 <= t < k2 && 0 <= k < 3 ==> j < 3 * #[trigger] corner(ind, t, k) || 3 * corner(
                ind, t, k) + 3 <= j,
    ensures
        slots_after(ind, pos, uv, k2, bitan)[j] == slots_after(ind, pos, uv, k1, bitan)[j],
    decreases k2 - k1,
{
    if k1 < k2 {
        lemma_untouched_slot(ind, pos, uv, k1, k2 - 1, j, bitan);
        lemma_slots_len(ind, pos, uv, k2 - 1, bitan);
        vstd::arithmetic::div_mod::lemma_fundamental_div_mod(ind.len() as int, 3);
        vstd::arithmetic::div_mod::lemma_mod_pos_bound(ind.len() as int, 3);
        assert(3 * (k2 - 1) + 2 < ind.len());
        assert(3 * corner(ind, k2 - 1, 0) + 3 <= pos.len());
        assert(3 * corner(ind, k2 - 1, 1) + 3 <= pos.len());
        assert(3 * corner(ind, k2 - 1, 2) + 3 <= pos.len());
        assert(slots_after(ind, pos, uv, k2, bitan) == write_tri(
            slots_after(ind, pos, uv, k2 - 1, bitan), ind, pos, uv, k2 - 1, bitan));
        assert(j < 3 * corner(ind, k2 - 1, 0) || 3 * corner(ind, k2 - 1, 0) + 3 <= j);
        assert(j < 3 * corner(ind, k2 - 1, 1) || 3 * corner(ind, k2 - 1, 1) + 3 <= j);
        assert(j < 3 * corner(ind, k2 - 1, 2) || 3 * corner(ind, k2 - 1, 2) + 3 <= j);
    }
}

/// Reading back one slot of the nine writes a triangle makes: every corner
/// receives the same componentwise values.
proof fn lemma_write9_at(
    s: Seq<i64>, v0: int, v1: int, v2: int, cx: i64, cy: i64, cz: i64, v: int, c: int,
)
    requires
        0 <= v0 && 3 * v0 + 3 <= s.len(),
        0 <= v1 && 3 * v1 + 3 <= s.len(),
        0 <= v2 && 3 * v2 + 3 <= s.len(),
        v == v0 || v == v1 || v == v2,
        0 <= c < 3,
    ensures
        s.update(3 * v0 + 0, cx).update(3 * v0 + 1, cy).update(3 * v0 + 2, cz).update(
            3 * v1 + 0, cx).update(3 * v1 + 1, cy).update(3 * v1 + 2, cz).update(
            3 * v2 + 0, cx).update(3 * v2 + 1, cy).update(3 * v2 + 2, cz)[3 * v + c] == (
        if c == 0 {
            cx
        } else if c == 1 {
            cy
        } else {
            cz
        }),
{
}

/// Last triangle wins: if triangle `t` is the last one that touches vertex
/// `v`, the generator leaves `t`'s own tangent and bitangent — the same
/// values for all three corners of `t` — in `v`'s three slots.
pub proof fn lemma_last_writer(ind: Seq<u16>, pos: Seq<i64>, uv: Seq<i64>, t: int, v: int)
    requires
        tangent_input_wf(ind, pos, uv),
        0 <= t < tri_total(ind),
        v == corner(ind, t, 0) || v == corner(ind, t, 1) || v == corner(ind, t, 2),
        forall|t2: int, k: int|
            t < t2 < tri_total(ind) && 0 <= k < 3 ==> #[trigger] corner(ind, t2, k) != v,
    ensures
        forall|c: int|
            0 <= c < 3 ==> slots_after(ind, pos, uv, tri_total(ind), false)[3 * v + c] as int
                == #[trigger] tri_tangent(ind, pos, uv, t, c),
        forall|c: int|
            0 <= c < 3 ==> slots_after(ind, pos, uv, tri_total(ind), true)[3 * v + c] as int
                == #[trigger] tri_bitangent(ind, pos, uv, t, c),
{
    vstd::arithmetic::div_mod::lemma_fundamental_div_mod(ind.len() as int, 3);
    vstd::arithmetic::div_mod::lemma_mod_pos_bound(ind.len() as int, 3);
    assert(3 * t + 2 < ind.len());
    assert(3 * corner(ind, t, 0) + 3 <= pos.len());
    assert(3 * corner(ind, t, 1) + 3 <= pos.len());
    assert(3 * corner(ind, t, 2) + 3 <= pos.len());
    assert forall|c: int| 0 <= c < 3 implies slots_after(
        ind, pos, uv, tri_total(ind), false)[3 * v + c] as int == #[trigger] tri_tangent(
        ind, pos, uv, t, c) by {
        lemma_slots_len(ind, pos, uv, t, false);
        lemma_tri_values_fit(ind, pos, uv, t, c);
        let prev = slots_after(ind, pos, uv, t, false);
        lemma_write9_at(prev, corner(ind, t, 0), corner(ind, t, 1), corner(ind, t, 2),
            tri_tangent(ind, pos, uv, t, 0) as i64, tri_tangent(ind, pos, uv, t, 1) as i64,
            tri_tangent(ind, pos, uv, t, 2) as i64, v, c);
        assert(slots_after(ind, pos, uv, t + 1, false) == write_tri(prev, ind, pos, uv, t,
            false));
        assert(slots_after(ind, pos, uv, t + 1, false)[3 * v + c] as int == tri_tangent(
            ind, pos, uv, t, c));
        lemma_untouched_slot(ind, pos, uv, t + 1, tri_total(ind), 3 * v + c, false);
    }
    assert forall|c: int| 0 <= c < 3 implies slots_after(
        ind, pos, uv, tri_total(ind), true)[3 * v + c] as int == #[trigger] tri_bitangent(
        ind, pos, uv, t, c) by {
        lemma_slots_len(ind, pos, uv, t, true);
        lemma_tri_values_fit(ind, pos, uv, t, c);
        let prev = slots_after(ind, pos, uv, t, true);
        lemma_write9_at(prev, corner(ind, t, 0), corner(ind, t, 1), corner(ind, t, 2),
            tri_bitangent(ind, pos, uv, t, 0) as i64, tri_bitangent(ind, pos, uv, t, 1) as i64,
            tri_bitangent(ind, pos, uv, t, 2) as i64, v, c);
        assert(slots_after(ind, pos, uv, t + 1, true) == write_tri(prev, ind, pos, uv, t,
            true));
        assert(slots_after(ind, pos, uv, t + 1, true)[3 * v + c] as int == tri_bitangent(
            ind, pos, uv, t, c));
        lemma_untouched_slot(ind, pos, uv, t + 1, tri_total(ind), 3 * v + c, true);
    }
}

/// A vector of `n` zero scalars.
fn zero_vec(n: usize) -> (res: Vec<i64>)
    ensures
        res@ == Seq::new(n as nat, |i: int| 0i64),
{
    let mut v: Vec<i64> = Vec::new();
    let mut i: usize = 0;
    while i < n
        invariant
            i <= n,
            v@.len() == i,
            forall|j: int| 0 <= j < i ==> #[trigger] v@[j] == 0i64,
        decreases n - i,
    {
        v.push(0);
        i += 1;
    }
    proof {
        assert(v@ =~= Seq::new(n as nat, |j: int| 0i64));
    }
    v
}

/// Solves one triangle's 2x2 tangent system: returns its three corner
/// indices, its tangent and its bitangent.
#[verifier::rlimit(50)]
fn tri_values(
    indices: &Vec<u16>, positions: &Vec<i64>, texcoords: &Vec<i64>, t: usize,
) -> (res: (usize, usize, usize, i64, i64, i64, i64, i64, i64))
    requires
        tangent_input_wf(indices@, positions@, texcoords@),
        (t as int) < tri_total(indices@),
        3 * (t as int) + 2 < indices@.len(),
    ensures
        res.0 == corner(indices@, t as int, 0),
        res.1 == corner(indices@, t as int, 1),
        res.2 == corner(indices@, t as int, 2),
        res.3 == tri_tangent(indices@, positions@, texcoords@, t as int, 0),
        res.4 == tri_tangent(indices@, positions@, texcoords@, t as int, 1),
        res.5 == tri_tangent(indices@, positions@, texcoords@, t as int, 2),
        res.6 == tri_bitangent(indices@, positions@, texcoords@, t as int, 0),
        res.7 == tri_bitangent(indices@, positions@, texcoords@, t as int, 1),
        res.8 == tri_bitangent(indices@, positions@, texcoords@, t as int, 2),
{
    let ghost ind = indices@;
    let ghost pos = positions@;
    let ghost uv = texcoords@;
    let n = indices.len();
    let i0 = indices[3 * t] as usize;
    let i1 = indices[3 * t + 1] as usize;
    let i2 = indices[3 * t + 2] as usize;
    let p0x = positions[3 * i0];
    let p0y = positions[3 * i0 + 1];
    let p0z = positions[3 * i0 + 2];
    let p1x = positions[3 * i1];
    let p1y = positions[3 * i1 + 1];
    let p1z = positions[3 * i1 + 2];
    let p2x = positions[3 * i2];
    let p2y = positions[3 * i2 + 1];
    let p2z = positions[3 * i2 + 2];
    let u0x = texcoords[2 * i0];
    let u0y = texcoords[2 * i0 + 1];
    let u1x = texcoords[2 * i1];
    let u1y = texcoords[2 * i1 + 1];
    let u2x = texcoords[2 * i2];
    let u2y = texcoords[2 * i2 + 1];
    let e1x = p1x - p0x;
    let e1y = p1y - p0y;
    let e1z = p1z - p0z;
    let e2x = p2x - p0x;
    let e2y = p2y - p0y;
    let e2z = p2z - p0z;
    let d1x = u1x - u0x;
    let d1y = u1y - u0y;
    let d2x = u2x - u0x;
    let d2y = u2y - u0y;
    proof {
        lemma_fx_bound(d1x as int, d2y as int, 2 * PT_MAX as int, 2 * PT_MAX as int);
        lemma_fx_bound(d1y as int, d2x as int, 2 * PT_MAX as int, 2 * PT_MAX as int);
        lemma_fx_bound(e1x as int, d2y as int, 2 * PT_MAX as int, 2 * PT_MAX as int);
        lemma_fx_bound(e1y as int, d2y as int, 2 * PT_MAX as int, 2 * PT_MAX as int);
        lemma_fx_bound(e1z as int, d2y as int, 2 * PT_MAX as int, 2 * PT_MAX as int);
        lemma_fx_bound(e2x as int, d1y as int, 2 * PT_MAX as int, 2 * PT_MAX as int);
        lemma_fx_bound(e2y as int, d1y as int, 2 * PT_MAX as int, 2 * PT_MAX as int);
        lemma_fx_bound(e2z as int, d1y as int, 2 * PT_MAX as int, 2 * PT_MAX as int);
        lemma_fx_bound(e2x as int, d1x as int, 2 * PT_MAX as int, 2 * PT_MAX as int);
        lemma_fx_bound(e2y as int, d1x as int, 2 * PT_MAX as int, 2 * PT_MAX as int);
        lemma_fx_bound(e2z as int, d1x as int, 2 * PT_MAX as int, 2 * PT_MAX as int);
        lemma_fx_bound(e1x as int, d2x as int, 2 * PT_MAX as int, 2 * PT_MAX as int);
        lemma_fx_bound(e1y as int, d2x as int, 2 * PT_MAX as int, 2 * PT_MAX as int);
        lemma_fx_bound(e1z as int, d2x as int, 2 * PT_MAX as int, 2 * PT_MAX as int);
    }
    let det = fx_mul(d1x, d2y) - fx_mul(d1y, d2x);
    proof {
        assert(det as int == uv_det(ind, uv, t as int));
        assert(uv_det(ind, uv, t as int) != 0);
    }
    let tnx = fx_mul(e1x, d2y) - fx_mul(e2x, d1y);
    let tny = fx_mul(e1y, d2y) - fx_mul(e2y, d1y);
    let tnz = fx_mul(e1z, d2y) - fx_mul(e2z, d1y);
    let bnx = fx_mul(e2x, d1x) - fx_mul(e1x, d2x);
    let bny = fx_mul(e2y, d1x) - fx_mul(e1y, d2x);
    let bnz = fx_mul(e2z, d1x) - fx_mul(e1z, d2x);
    proof {
        lemma_fxd_bound_any(tnx as int, det as int, 0x100000000000);
        lemma_fxd_bound_any(tny as int, det as int, 0x100000000000);
        lemma_fxd_bound_any(tnz as int, det as int, 0x100000000000);
        lemma_fxd_bound_any(bnx as int, det as int, 0x100000000000);
        lemma_fxd_bound_any(bny as int, det as int, 0x100000000000);
        lemma_fxd_bound_any(bnz as int, det as int, 0x100000000000);
    }
    let tx = fx_div(tnx, det);
    let ty = fx_div(tny, det);
    let tz = fx_div(tnz, det);
    let bx = fx_div(bnx, det);
    let by = fx_div(bny, det);
    let bz = fx_div(bnz, det);
    (i0, i1, i2, tx, ty, tz, bx, by, bz)
}

/// Derives per-vertex tangents and bitangents from triangle indices,
/// positions and texture coordinates. Both results have one scalar per
/// position scalar; a shared vertex keeps the values of the last triangle
/// that wrote to it.
pub fn calc_tangents_bitangents(
    indices: &Vec<u16>, positions: &Vec<i64>, texcoords: &Vec<i64>,
) -> (res: (Vec<i64>, Vec<i64>))
    requires
        tangent_input_wf(indices@, positions@, texcoords@),
    ensures
        res.0@ == slots_after(indices@, positions@, texcoords@, tri_total(indices@), false),
        res.1@ == slots_after(indices@, positions@, texcoords@, tri_total(indices@), true),
        res.0@.len() == positions@.len(),
        res.1@.len() == positions@.len(),
{
    let ghost ind = indices@;
    let ghost pos = positions@;
    let ghost uv = texcoords@;
    let mut tan: Vec<i64> = zero_vec(positions.len());
    let mut bit: Vec<i64> = zero_vec(positions.len());
    let nt: usize = indices.len() / 3;
    proof {
        vstd::arithmetic::div_mod::lemma_fundamental_div_mod(ind.len() as int, 3);
    }
    let mut t: usize = 0;
    while t < nt
        invariant
            tangent_input_wf(ind, pos, uv),
            ind == indices@,
            pos == positions@,
            uv == texcoords@,
            nt == tri_total(ind),
            3 * nt == ind.len(),
            t <= nt,
            tan@ == slots_after(ind, pos, uv, t as int, false),
            bit@ == slots_after(ind, pos, uv, t as int, true),
            tan@.len() == pos.len(),
            bit@.len() == pos.len(),
        decreases nt - t,
    {
        let (i0, i1, i2, tx, ty, tz, bx, by, bz) = tri_values(indices, positions, texcoords, t);
        let ghost tan_before = tan@;
        let ghost bit_before = bit@;
        tan[3 * i0] = tx;
        tan[3 * i0 + 1] = ty;
        tan[3 * i0 + 2] = tz;
        tan[3 * i1] = tx;
        tan[3 * i1 + 1] = ty;
        tan[3 * i1 + 2] = tz;
        tan[3 * i2] = tx;
        tan[3 * i2 + 1] = ty;
        tan[3 * i2 + 2] = tz;
        bit[3 * i0] = bx;
        bit[3 * i0 + 1] = by;
        bit[3 * i0 + 2] = bz;
        bit[3 * i1] = bx;
        bit[3 * i1 + 1] = by;
        bit[3 * i1 + 2] = bz;
        bit[3 * i2] = bx;
        bit[3 * i2 + 1] = by;
        bit[3 * i2 + 2] = bz;
        proof {
            assert(tan@ == write_tri(tan_before, ind, pos, uv, t as int, false));
            assert(bit@ == write_tri(bit_before, ind, pos, uv, t as int, true));
            assert(tan@ == slots_after(ind, pos, uv, t as int + 1, false));
            assert(bit@ == slots_after(ind, pos, uv, t as int + 1, true));
        }
        t += 1;
    }
    (tan, bit)
}

} // verus!
