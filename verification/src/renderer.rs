//! The scene-graph root: program bookkeeping, the object list, the camera,
//! and one frame's worth of decisions.
//!
//! Each frame advances any in-flight camera transition, rebuilds the
//! frame-global uniform values — view, projection, camera position, light
//! parameters and texture-unit bindings — and emits one draw command per
//! object, with the object's rotation re-derived from the frame time. All
//! GPU traffic happens outside: the renderer only decides what to upload.
use vstd::prelude::*;
use crate::fixed::{FX_ONE, fxd, fx_div, lemma_fxd_bound};
use crate::mat4::{Mat4, INV_MAX, MUL_MAX, bounded, mm_seq, inv_seq, inv_fits, transpose_seq,
    identity_seq, translation_seq, scaling_seq, rotation_y_seq, perspective_seq, identity,
    translation, scaling, rotation_y, mat_mul, try_inverse, perspective,
    lemma_mm_bounded};
use crate::quat::{Quat, QCOMP_MAX, qbounded, qnlerp_s, quat_mat_seq, quat_to_mat4};
use crate::transition::{CameraRotationTransition, TIME_MAX};
use crate::program::UniformLocationMap;
use crate::mesh::Mesh;
use crate::model::Model;
use crate::object::{Object, OBJ_MAX};

verus! {

/// Scaled light attenuation coefficient, about one thousandth.
pub const LIGHT_ATTENUATION: i64 = 66;

/// Scaled scale factor of a block object: one hundred units a side.
pub const BLOCK_SCALE: i64 = 100 * 65536;

/// The milliseconds one camera transition takes.
pub const TRANSITION_MS: i64 = 1000;

/// The milliseconds one full object spin takes.
pub const SPIN_PERIOD_MS: i64 = 10000;

/// One object's worth of GPU work for a frame.
pub struct DrawCall {
    pub world: Mat4,
    /// The normal-correcting matrix; absent exactly when the world
    /// transform has no representable inverse, in which case the caller
    /// skips the draw.
    pub world_inverse_transpose: Option<Mat4>,
    pub vao: u32,
    pub index_buffer: u32,
    pub num_indices: i32,
    pub color_map: u32,
    pub specular_map: u32,
    pub normal_map: u32,
}

/// Everything one frame uploads: resolved uniform handles, frame-global
/// uniform values, and one draw command per object.
pub struct Frame {
    pub view_loc: u32,
    pub projection_loc: u32,
    pub camera_position_loc: u32,
    pub light_position_loc: u32,
    pub light_color_loc: u32,
    pub light_attenuation_loc: u32,
    pub num_lights_loc: u32,
    pub color_map_loc: u32,
    pub specular_map_loc: u32,
    pub normal_map_loc: u32,
    pub world_loc: u32,
    pub world_inverse_transpose_loc: u32,
    /// The view matrix; absent exactly when the camera matrix has no
    /// representable inverse.
    pub view: Option<Mat4>,
    pub projection: Mat4,
    pub camera_position: (i64, i64, i64),
    pub light_position: (i64, i64, i64),
    pub light_color: (i64, i64, i64),
    pub light_attenuation: i64,
    pub num_lights: i32,
    pub color_map_unit: i32,
    pub specular_map_unit: i32,
    pub normal_map_unit: i32,
    pub draws: Vec<DrawCall>,
}

/// The facing index one step to the right.
pub open spec fn step_right(i: int, n: int) -> int {
    (i + 1) % n
}

/// The facing index one step to the left.
pub open spec fn step_left(i: int, n: int) -> int {
    (i + n - 1) % n
}

/// The orientation looking toward facing `i` of the eight 45-degree
/// facings: a yaw about the vertical axis, with the half-angle cosine and
/// sine tabulated in scaled units (25080 and 60547 stand for the sine and
/// cosine of 22.5 degrees, 46341 for both at 45 degrees).
pub open spec fn facing8_s(i: int) -> Quat {
    if i == 0 {
        Quat { x: 0i64, y: 0i64, z: 0i64, w: 65536i64 }
    } else if i == 1 {
        Quat { x: 0i64, y: -25080i64, z: 0i64, w: 60547i64 }
    } else if i == 2 {
        Quat { x: 0i64, y: -46341i64, z: 0i64, w: 46341i64 }
    } else if i == 3 {
        Quat { x: 0i64, y: -60547i64, z: 0i64, w: 25080i64 }
    } else if i == 4 {
        Quat { x: 0i64, y: -65536i64, z: 0i64, w: 0i64 }
    } else if i == 5 {
        Quat { x: 0i64, y: -60547i64, z: 0i64, w: -25080i64 }
    } else if i == 6 {
        Quat { x: 0i64, y: -46341i64, z: 0i64, w: -46341i64 }
    } else {
        Quat { x: 0i64, y: -25080i64, z: 0i64, w: -60547i64 }
    }
}

/// The orientation for facing `i` in an `n`-facing configuration: the
/// four-facing configuration uses every other one of the eight facings.
pub open spec fn facing_orientation_s(i: int, n: int) -> Quat {
    if n == 4 {
        facing8_s(2 * i)
    } else {
        facing8_s(i)
    }
}

/// The orientation for facing `i` in an `n`-facing configuration.
pub fn facing_orientation(i: usize, n: usize) -> (res: Quat)
    requires
        n == 4 || n == 8,
        i < n,
    ensures
        res == facing_orientation_s(i as int, n as int),
        qbounded(res, QCOMP_MAX as int),
{
    let j: usize = if n == 4 {
        2 * i
    } else {
        i
    };
    if j == 0 {
        Quat { x: 0, y: 0, z: 0, w: 65536 }
    } else if j == 1 {
        Quat { x: 0, y: -25080, z: 0, w: 60547 }
    } else if j == 2 {
        Quat { x: 0, y: -46341, z: 0, w: 46341 }
    } else if j == 3 {
        Quat { x: 0, y: -60547, z: 0, w: 25080 }
    } else if j == 4 {
        Quat { x: 0, y: -65536, z: 0, w: 0 }
    } else if j == 5 {
        Quat { x: 0, y: -60547, z: 0, w: -25080 }
    } else if j == 6 {
        Quat { x: 0, y: -46341, z: 0, w: -46341 }
    } else {
        Quat { x: 0, y: -25080, z: 0, w: -60547 }
    }
}

/// Four consecutive right steps of a four-facing configuration return the
/// facing index to where it began, so the fourth transition's target is
/// the orientation computed directly for the original facing.
pub proof fn lemma_four_right_rotations_restore(i: int)
    requires
        0 <= i < 4,
    ensures
        step_right(step_right(step_right(step_right(i, 4), 4), 4), 4) == i,
        facing_orientation_s(step_right(step_right(step_right(step_right(i, 4), 4), 4), 4), 4)
            == facing_orientation_s(i, 4),
{
}

/// The scaled fraction of the spin period that `now` falls at: the
/// parameter each object's per-frame rotation angle is derived from.
pub fn spin_angle(now: i64) -> (res: i64)
    requires
        0 <= now,
    ensures
        res == fxd((now % SPIN_PERIOD_MS) as int, SPIN_PERIOD_MS as int),
        0 <= res <= FX_ONE,
{
    let rem = now % SPIN_PERIOD_MS;
    proof {
        lemma_fxd_bound(rem as int, SPIN_PERIOD_MS as int, SPIN_PERIOD_MS as int);
        vstd::arithmetic::div_mod::lemma_div_is_ordered(rem as int * FX_ONE as int,
            SPIN_PERIOD_MS as int * FX_ONE as int, SPIN_PERIOD_MS as int);
        vstd::arithmetic::div_mod::lemma_div_multiples_vanish(FX_ONE as int,
            SPIN_PERIOD_MS as int);
        vstd::arithmetic::div_mod::lemma_div_is_ordered(0, rem as int * FX_ONE as int,
            SPIN_PERIOD_MS as int);
        vstd::arithmetic::div_mod::lemma_div_of0(SPIN_PERIOD_MS as int);
    }
    fx_div(rem, SPIN_PERIOD_MS)
}

/// The resting place of block `pos` of the eight-block ring: six hundred
/// units from the origin, at 45-degree steps (27804570 stands for the
/// scaled diagonal coordinate, six hundred over the square root of two).
pub open spec fn block_translation_s(pos: int) -> (int, int) {
    if pos == 0 {
        (39321600, 0)
    } else if pos == 1 {
        (27804570, -27804570)
    } else if pos == 2 {
        (0, -39321600)
    } else if pos == 3 {
        (-27804570, -27804570)
    } else if pos == 4 {
        (-39321600, 0)
    } else if pos == 5 {
        (-27804570, 27804570)
    } else if pos == 6 {
        (0, 39321600)
    } else {
        (27804570, 27804570)
    }
}

/// The scaled x and z coordinates where block `pos` of the ring rests.
pub fn block_translation(pos: usize) -> (res: (i64, i64))
    requires
        pos < 8,
    ensures
        res.0 == block_translation_s(pos as int).0,
        res.1 == block_translation_s(pos as int).1,
{
    if pos == 0 {
        (39321600, 0)
    } else if pos == 1 {
        (27804570, -27804570)
    } else if pos == 2 {
        (0, -39321600)
    } else if pos == 3 {
        (-27804570, -27804570)
    } else if pos == 4 {
        (-39321600, 0)
    } else if pos == 5 {
        (-27804570, 27804570)
    } else if pos == 6 {
        (0, 39321600)
    } else {
        (27804570, 27804570)
    }
}

/// An object showing the given model at resting place `pos` of the ring:
/// scaled to a hundred units, unrotated, translated onto the ring.
pub fn create_block(model: usize, pos: usize) -> (res: Object)
    requires
        pos < 8,
    ensures
        res.wf(),
        res.model == model,
        res.scale.m@ == scaling_seq(BLOCK_SCALE, BLOCK_SCALE, BLOCK_SCALE),
        res.rotation.m@ == identity_seq(),
        res.translation.m@ == translation_seq(block_translation_s(pos as int).0 as i64, 0,
            block_translation_s(pos as int).1 as i64),
{
    let (x, z) = block_translation(pos);
    let res = Object {
        model,
        scale: scaling(BLOCK_SCALE, BLOCK_SCALE, BLOCK_SCALE),
        rotation: identity(),
        translation: translation(x, 0, z),
    };
    proof {
        assert(bounded(res.scale.m@, OBJ_MAX as int));
        assert(bounded(res.rotation.m@, OBJ_MAX as int));
        assert(bounded(res.translation.m@, OBJ_MAX as int));
    }
    res
}

/// One frame's expected draw command for an object: the world transform
/// composed from the object's parts with its rotation re-derived from the
/// spin parameters, the normal-correcting matrix when it exists, and the
/// object's mesh and texture handles.
pub open spec fn draw_matches(
    d: DrawCall, o: Object, mdl: Model, msh: Mesh, sc: i64, ss: i64,
) -> bool {
    let w = mm_seq(o.translation.m@, mm_seq(rotation_y_seq(sc, ss), o.scale.m@));
    &&& d.world.wf()
    &&& d.world.m@ == w
    &&& (d.world_inverse_transpose is Some <==> bounded(w, INV_MAX as int) && inv_fits(w))
    &&& (d.world_inverse_transpose is Some ==> d.world_inverse_transpose->Some_0.m@
        == transpose_seq(inv_seq(w)))
    &&& d.vao == msh.vao
    &&& d.index_buffer == msh.index_buffer
    &&& d.num_indices == msh.num_indices
    &&& d.color_map == mdl.color_map
    &&& d.specular_map == mdl.specular_map
    &&& d.normal_map == mdl.normal_map
}

/// The scene-graph root.
pub struct Renderer {
    pub uniform_locations: UniformLocationMap,
    pub meshes: Vec<Mesh>,
    pub models: Vec<Model>,
    pub objects: Vec<Object>,
    pub num_facings: usize,
    pub camera_direction_index: usize,
    pub camera_rotation: Quat,
    pub camera_transition: Option<CameraRotationTransition>,
}

impl Renderer {
    /// The uniform map holds every name the renderer queries each frame.
    pub open spec fn has_required_uniforms(&self) -> bool {
        &&& self.uniform_locations.contains_name("u_view"@)
        &&& self.uniform_locations.contains_name("u_projection"@)
        &&& self.uniform_locations.contains_name("u_camera_position"@)
        &&& self.uniform_locations.contains_name("u_lights[0].position"@)
        &&& self.uniform_locations.contains_name("u_lights[0].color"@)
        &&& self.uniform_locations.contains_name("u_lights[0].attentuation_coefficient"@)
        &&& self.uniform_locations.contains_name("u_num_lights"@)
        &&& self.uniform_locations.contains_name("u_color_map"@)
        &&& self.uniform_locations.contains_name("u_specular_map"@)
        &&& self.uniform_locations.contains_name("u_normal_map"@)
        &&& self.uniform_locations.contains_name("u_world"@)
        &&& self.uniform_locations.contains_name("u_world_inverse_transpose"@)
    }

    /// A consistent scene: a populated uniform map, valid arena indices,
    /// well-formed objects, a facing count of four or eight, a facing index
    /// within it, a bounded camera orientation, and an unfinished
    /// transition if any.
    pub open spec fn wf(&self) -> bool {
        &&& self.uniform_locations.wf()
        &&& self.has_required_uniforms()
        &&& self.num_facings == 4 || self.num_facings == 8
        &&& self.camera_direction_index < self.num_facings
        &&& qbounded(self.camera_rotation, QCOMP_MAX as int)
        &&& (self.camera_transition is Some ==> self.camera_transition->Some_0.wf()
            && !self.camera_transition->Some_0.finished)
        &&& forall|k: int|
            0 <= k < self.objects@.len() ==> (#[trigger] self.objects@[k]).wf()
                && self.objects@[k].model < self.models@.len()
        &&& forall|k: int|
            0 <= k < self.models@.len() ==> (#[trigger] self.models@[k]).mesh
                < self.meshes@.len()
    }

    /// A renderer over already-prepared resources, facing the first of its
    /// directions with no transition in flight.
    pub fn new(
        uniform_locations: UniformLocationMap, meshes: Vec<Mesh>, models: Vec<Model>,
        objects: Vec<Object>, num_facings: usize,
    ) -> (res: Renderer)
        requires
            num_facings == 4 || num_facings == 8,
            ({
                let r = Renderer {
                    uniform_locations, meshes, models, objects, num_facings,
                    camera_direction_index: 0,
                    camera_rotation: facing_orientation_s(0, num_facings as int),
                    camera_transition: None,
                };
                r.wf()
            }),
        ensures
            res.wf(),
            res.uniform_locations == uniform_locations,
            res.meshes == meshes,
            res.models == models,
            res.objects == objects,
            res.num_facings == num_facings,
            res.camera_direction_index == 0,
            res.camera_rotation == facing_orientation_s(0, num_facings as int),
            res.camera_transition is None,
    {
        let camera_rotation = facing_orientation(0, num_facings);
        Renderer {
            uniform_locations,
            meshes,
            models,
            objects,
            num_facings,
            camera_direction_index: 0,
            camera_rotation,
            camera_transition: None,
        }
    }

    /// Steps the facing index one to the left and starts a fresh
    /// one-second transition from the current orientation — mid-flight or
    /// not — to the new facing's orientation, superseding any transition
    /// in progress.
    pub fn rotate_camera_left(&mut self, now: i64)
        requires
            old(self).wf(),
            0 <= now,
            now + TRANSITION_MS <= TIME_MAX,
        ensures
            final(self).wf(),
            final(self).camera_direction_index == step_left(
                old(self).camera_direction_index as int, old(self).num_facings as int),
            final(self).camera_transition == Some(CameraRotationTransition {
                finished: false,
                start_quat: old(self).camera_rotation,
                end_quat: facing_orientation_s(final(self).camera_direction_index as int,
                    old(self).num_facings as int),
                start_time: now,
                end_time: (now + TRANSITION_MS) as i64,
            }),
            final(self).camera_rotation == old(self).camera_rotation,
            final(self).uniform_locations == old(self).uniform_locations,
            final(self).meshes == old(self).meshes,
            final(self).models == old(self).models,
            final(self).objects == old(self).objects,
            final(self).num_facings == old(self).num_facings,
    {
        let idx = (self.camera_direction_index + self.num_facings - 1) % self.num_facings;
        self.camera_direction_index = idx;
        let target = facing_orientation(idx, self.num_facings);
        self.camera_transition = Some(CameraRotationTransition::new(self.camera_rotation,
            target, now, now + TRANSITION_MS));
    }

    /// Steps the facing index one to the right and starts a fresh
    /// one-second transition from the current orientation — mid-flight or
    /// not — to the new facing's orientation, superseding any transition
    /// in progress.
    pub fn rotate_camera_right(&mut self, now: i64)
        requires
            old(self).wf(),
            0 <= now,
            now + TRANSITION_MS <= TIME_MAX,
        ensures
            final(self).wf(),
            final(self).camera_direction_index == step_right(
                old(self).camera_direction_index as int, old(self).num_facings as int),
            final(self).camera_transition == Some(CameraRotationTransition {
                finished: false,
                start_quat: old(self).camera_rotation,
                end_quat: facing_orientation_s(final(self).camera_direction_index as int,
                    old(self).num_facings as int),
                start_time: now,
                end_time: (now + TRANSITION_MS) as i64,
            }),
            final(self).camera_rotation == old(self).camera_rotation,
            final(self).uniform_locations == old(self).uniform_locations,
            final(self).meshes == old(self).meshes,
            final(self).models == old(self).models,
            final(self).objects == old(self).objects,
            final(self).num_facings == old(self).num_facings,
    {
        let idx = (self.camera_direction_index + 1) % self.num_facings;
        self.camera_direction_index = idx;
        let target = facing_orientation(idx, self.num_facings);
        self.camera_transition = Some(CameraRotationTransition::new(self.camera_rotation,
            target, now, now + TRANSITION_MS));
    }

    /// Produces one frame: advances any camera transition (discarding it
    /// once finished), resolves the frame-global uniform handles, rebuilds
    /// the view and projection matrices and the light parameters,
    /// re-derives every object's rotation from the spin parameters, and
    /// emits one draw command per object in draw order. The caller samples
    /// the clock and the spin angle's cosine and sine, and uploads what
    /// comes back.
    pub fn render(&mut self, now: i64, width: u32, height: u32, spin_cos: i64, spin_sin: i64)
        -> (res: Frame)
        requires
            old(self).wf(),
            0 <= now <= TIME_MAX,
            1 <= width <= 32768,
            1 <= height <= 32768,
            -FX_ONE <= spin_cos <= FX_ONE,
            -FX_ONE <= spin_sin <= FX_ONE,
        ensures
            final(self).wf(),
            old(self).camera_transition is None ==> final(self).camera_rotation == old(
                self).camera_rotation && final(self).camera_transition is None,
            old(self).camera_transition is Some ==> {
                let tr = old(self).camera_transition->Some_0;
                &&& final(self).camera_rotation == qnlerp_s(tr.start_quat, tr.end_quat,
                    tr.eased_at(now as int))
                &&& (final(self).camera_transition is None <==> fxd(
                    now - tr.start_time, tr.end_time - tr.start_time) >= FX_ONE)
                &&& (final(self).camera_transition is Some ==> final(
                    self).camera_transition->Some_0 == tr)
            },
            final(self).uniform_locations == old(self).uniform_locations,
            final(self).meshes == old(self).meshes,
            final(self).models == old(self).models,
            final(self).num_facings == old(self).num_facings,
            final(self).camera_direction_index == old(self).camera_direction_index,
            final(self).objects@.len() == old(self).objects@.len(),
            forall|k: int|
                0 <= k < old(self).objects@.len() ==> {
                    &&& (#[trigger] final(self).objects@[k]).model == old(self).objects@[k].model
                    &&& final(self).objects@[k].scale.m@ == old(self).objects@[k].scale.m@
                    &&& final(self).objects@[k].translation.m@ == old(
                        self).objects@[k].translation.m@
                    &&& final(self).objects@[k].rotation.m@ == rotation_y_seq(spin_cos, spin_sin)
                },
            res.projection.m@ == perspective_seq(width as int, height as int),
            ({
                let vm = mm_seq(translation_seq(0, 0, 0), quat_mat_seq(
                    final(self).camera_rotation));
                &&& (res.view is Some <==> inv_fits(vm))
                &&& (res.view is Some ==> res.view->Some_0.m@ == inv_seq(vm))
            }),
            res.camera_position == (0i64, 0i64, 0i64),
            res.light_position == (0i64, 0i64, 0i64),
            res.light_color == (FX_ONE, FX_ONE, FX_ONE),
            res.light_attenuation == LIGHT_ATTENUATION,
            res.num_lights == 1,
            res.color_map_unit == 0,
            res.specular_map_unit == 1,
            res.normal_map_unit == 2,
            res.view_loc == old(self).uniform_locations.handle_of("u_view"@),
            res.projection_loc == old(self).uniform_locations.handle_of("u_projection"@),
            res.camera_position_loc == old(self).uniform_locations.handle_of(
                "u_camera_position"@),
            res.light_position_loc == old(self).uniform_locations.handle_of(
                "u_lights[0].position"@),
            res.light_color_loc == old(self).uniform_locations.handle_of("u_lights[0].color"@),
            res.light_attenuation_loc == old(self).uniform_locations.handle_of(
                "u_lights[0].attentuation_coefficient"@),
            res.num_lights_loc == old(self).uniform_locations.handle_of("u_num_lights"@),
            res.color_map_loc == old(self).uniform_locations.handle_of("u_color_map"@),
            res.specular_map_loc == old(self).uniform_locations.handle_of("u_specular_map"@),
            res.normal_map_loc == old(self).uniform_locations.handle_of("u_normal_map"@),
            res.world_loc == old(self).uniform_locations.handle_of("u_world"@),
            res.world_inverse_transpose_loc == old(self).uniform_locations.handle_of(
                "u_world_inverse_transpose"@),
            res.draws@.len() == old(self).objects@.len(),
            forall|k: int|
                0 <= k < old(self).objects@.len() ==> draw_matches(
                    #[trigger] res.draws@[k], old(self).objects@[k],
                    old(self).models@[old(self).objects@[k].model as int],
                    old(self).meshes@[old(self).models@[old(
                        self).objects@[k].model as int].mesh as int], spin_cos, spin_sin),
    {
        if self.camera_transition.is_some() {
            let mut tr = self.camera_transition.unwrap();
            tr.update(&mut self.camera_rotation, now);
            if tr.finished {
                self.camera_transition = None;
            } else {
                self.camera_transition = Some(tr);
            }
        }
        let view_loc = require_loc(&self.uniform_locations, "u_view".to_owned());
        let projection_loc = require_loc(&self.uniform_locations, "u_projection".to_owned());
        let camera_position_loc = require_loc(&self.uniform_locations,
            "u_camera_position".to_owned());
        let light_position_loc = require_loc(&self.uniform_locations,
            "u_lights[0].position".to_owned());
        let light_color_loc = require_loc(&self.uniform_locations,
            "u_lights[0].color".to_owned());
        let light_attenuation_loc = require_loc(&self.uniform_locations,
            "u_lights[0].attentuation_coefficient".to_owned());
        let num_lights_loc = require_loc(&self.uniform_locations, "u_num_lights".to_owned());
        let color_map_loc = require_loc(&self.uniform_locations, "u_color_map".to_owned());
        let specular_map_loc = require_loc(&self.uniform_locations,
            "u_specular_map".to_owned());
        let normal_map_loc = require_loc(&self.uniform_locations, "u_normal_map".to_owned());
        let world_loc = require_loc(&self.uniform_locations, "u_world".to_owned());
        let world_inverse_transpose_loc = require_loc(&self.uniform_locations,
            "u_world_inverse_transpose".to_owned());
        let projection = perspective(width, height);
        let cam_t = translation(0, 0, 0);
        let cam_r = quat_to_mat4(self.camera_rotation);
        proof {
            assert forall|i: int| 0 <= i < 16 implies -(MUL_MAX as int) <= #[trigger]
                cam_t.m@[i] <= MUL_MAX as int by {
                assert(cam_t.m@ =~= translation_seq(0, 0, 0));
            }
        }
        let vm = mat_mul(&cam_t, &cam_r);
        proof {
            lemma_mm_bounded(cam_t.m@, cam_r.m@, vm.m@, 65536, 0x500000);
        }
        let view = try_inverse(&vm);
        let ghost pre = *self;
        let mut draws: Vec<DrawCall> = Vec::new();
        let mut k: usize = 0;
        while k < self.objects.len()
            invariant
                old(self).wf(),
                pre.wf(),
                -FX_ONE <= spin_cos <= FX_ONE,
                -FX_ONE <= spin_sin <= FX_ONE,
                self.uniform_locations == pre.uniform_locations,
                self.meshes == pre.meshes,
                self.models == pre.models,
                self.num_facings == pre.num_facings,
                self.camera_direction_index == pre.camera_direction_index,
                self.camera_rotation == pre.camera_rotation,
                self.camera_transition == pre.camera_transition,
                pre.meshes == old(self).meshes,
                pre.models == old(self).models,
                pre.objects == old(self).objects,
                k <= self.objects@.len(),
                self.objects@.len() == old(self).objects@.len(),
                forall|j: int|
                    k <= j < self.objects@.len() ==> #[trigger] self.objects@[j] == old(
                        self).objects@[j],
                forall|j: int|
                    0 <= j < self.objects@.len() ==> (#[trigger] self.objects@[j]).wf()
                        && self.objects@[j].model < self.models@.len(),
                forall|j: int|
                    0 <= j < k ==> {
                        &&& (#[trigger] self.objects@[j]).model == old(self).objects@[j].model
                        &&& self.objects@[j].scale.m@ == old(self).objects@[j].scale.m@
                        &&& self.objects@[j].translation.m@ == old(
                            self).objects@[j].translation.m@
                        &&& self.objects@[j].rotation.m@ == rotation_y_seq(spin_cos, spin_sin)
                    },
                draws@.len() == k,
                forall|j: int|
                    0 <= j < k ==> draw_matches(#[trigger] draws@[j], old(self).objects@[j],
                        old(self).models@[old(self).objects@[j].model as int],
                        old(self).meshes@[old(self).models@[old(
                            self).objects@[j].model as int].mesh as int], spin_cos, spin_sin),
            decreases self.objects@.len() - k,
        {
            let model_i = self.objects[k].model;
            let sc_m = self.objects[k].scale.duplicate();
            let tr_m = self.objects[k].translation.duplicate();
            let rot = rotation_y(spin_cos, spin_sin);
            proof {
                assert forall|i: int| 0 <= i < 16 implies -(OBJ_MAX as int) <= #[trigger]
                    rot.m@[i] <= OBJ_MAX as int by {
                    assert(rot.m@ =~= rotation_y_seq(spin_cos, spin_sin));
                }
            }
            let new_obj = Object { model: model_i, scale: sc_m, rotation: rot,
                translation: tr_m };
            let world = new_obj.world();
            let wit = new_obj.world_inverse_transpose();
            let mdl_mesh = self.models[model_i].mesh;
            let color_map = self.models[model_i].color_map;
            let specular_map = self.models[model_i].specular_map;
            let normal_map = self.models[model_i].normal_map;
            let vao = self.meshes[mdl_mesh].vao;
            let index_buffer = self.meshes[mdl_mesh].index_buffer;
            let num_indices = self.meshes[mdl_mesh].num_indices;
            self.objects[k] = new_obj;
            draws.push(DrawCall {
                world,
                world_inverse_transpose: wit,
                vao,
                index_buffer,
                num_indices,
                color_map,
                specular_map,
                normal_map,
            });
            k += 1;
        }
        Frame {
            view_loc,
            projection_loc,
            camera_position_loc,
            light_position_loc,
            light_color_loc,
            light_attenuation_loc,
            num_lights_loc,
            color_map_loc,
            specular_map_loc,
            normal_map_loc,
            world_loc,
            world_inverse_transpose_loc,
            view,
            projection,
            camera_position: (0, 0, 0),
            light_position: (0, 0, 0),
            light_color: (FX_ONE, FX_ONE, FX_ONE),
            light_attenuation: LIGHT_ATTENUATION,
            num_lights: 1,
            color_map_unit: 0,
            specular_map_unit: 1,
            normal_map_unit: 2,
            draws,
        }
    }
}

/// The handle under a uniform name the map is known to contain.
fn require_loc(map: &UniformLocationMap, name: String) -> (h: u32)
    requires
        map.wf(),
        map.contains_name(name@),
    ensures
        h == map.handle_of(name@),
{
    let r = map.get(&name);
    match r {
        Some(h) => h,
        None => vstd::pervasive::unreached(),
    }
}

} // verus!
