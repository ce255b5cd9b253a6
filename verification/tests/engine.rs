use webgl_engine::fixed::FX_ONE;
use webgl_engine::tangent::calc_tangents_bitangents;
use webgl_engine::cube::{cube_indices, cube_positions, cube_normals, cube_texcoords};
use webgl_engine::mesh::{MeshViews, MeshError, validate_mesh_views, prepare_mesh_buffers,
    mesh_views_from_document, glb_header_check, cube_mesh_buffers};
use webgl_engine::model::Model;
use webgl_engine::mesh::Mesh;
use webgl_engine::object::Object;
use webgl_engine::mat4::{identity, translation, scaling};
use webgl_engine::program::{GL_FLOAT, GL_FLOAT_VEC2, GL_FLOAT_VEC3, ShaderStage, ProgramError,
    build_outcome, attribute_layout, build_attributes, UniformLocationMap};
use webgl_engine::transition::CameraRotationTransition;
use webgl_engine::quat::{Quat, quat_identity};
use webgl_engine::renderer::{Renderer, facing_orientation, spin_angle, block_translation,
    create_block};

#[test]
fn single_triangle_tangents_fill_all_three_slots() {
    let indices: Vec<u16> = vec![0, 1, 2];
    let o = FX_ONE;
    let positions: Vec<i64> = vec![0, 0, 0, o, 0, 0, 0, o, 0];
    let texcoords: Vec<i64> = vec![0, 0, o, 0, 0, o];
    let (tan, bit) = calc_tangents_bitangents(&indices, &positions, &texcoords);
    // tangent (1,0,0) and bitangent (0,1,0) written to every corner
    assert_eq!(tan, vec![o, 0, 0, o, 0, 0, o, 0, 0]);
    assert_eq!(bit, vec![0, o, 0, 0, o, 0, 0, o, 0]);
}

#[test]
fn shared_vertex_keeps_the_last_triangle() {
    let o = FX_ONE;
    // two triangles sharing vertices 0 and 2; the second has a different
    // texture slope, so its tangent differs from the first's
    let indices: Vec<u16> = vec![0, 1, 2, 0, 2, 3];
    let positions: Vec<i64> = vec![0, 0, 0, o, 0, 0, o, o, 0, 0, 2 * o, 0];
    let texcoords: Vec<i64> = vec![0, 0, o, 0, o, o, 0, o];
    let (tan, _bit) = calc_tangents_bitangents(&indices, &positions, &texcoords);
    // the first triangle wrote (1,0,0) everywhere; the second overwrote
    // vertices 0 and 2 with its own (1,-1,0), and vertex 1 kept the old one
    assert_eq!(&tan[0..3], &[o, -o, 0]);
    assert_eq!(&tan[3..6], &[o, 0, 0]);
    assert_eq!(&tan[6..9], &[o, -o, 0]);
    assert_eq!(&tan[9..12], &[o, -o, 0]);
}

#[test]
fn cube_mesh_tangents_cover_every_vertex() {
    let indices = cube_indices();
    let positions = cube_positions();
    let texcoords = cube_texcoords();
    assert_eq!(indices.len(), 36);
    assert_eq!(positions.len(), 72);
    assert_eq!(cube_normals().len(), 72);
    assert_eq!(texcoords.len(), 48);
    let (tan, bit) = calc_tangents_bitangents(&indices, &positions, &texcoords);
    assert_eq!(tan.len(), 72);
    assert_eq!(bit.len(), 72);
    for v in 0..24 {
        let t = &tan[3 * v..3 * v + 3];
        let b = &bit[3 * v..3 * v + 3];
        assert!(!(t[0] == 0 && t[1] == 0 && t[2] == 0), "vertex {} got no tangent", v);
        assert!(!(b[0] == 0 && b[1] == 0 && b[2] == 0), "vertex {} got no bitangent", v);
    }
}

#[test]
fn world_of_pure_translation_is_the_translation() {
    let t = 200 * FX_ONE;
    let obj = Object {
        model: 0,
        scale: identity(),
        rotation: identity(),
        translation: translation(t, 0, -t),
    };
    let w = obj.world();
    assert_eq!(w.m, translation(t, 0, -t).m);
    let wit = obj.world_inverse_transpose().expect("translation is invertible");
    // rotational 3x3 block is exactly the identity
    for r in 0..3 {
        for c in 0..3 {
            let expect = if r == c { FX_ONE } else { 0 };
            assert_eq!(wit.m[c * 4 + r], expect, "entry {} {}", r, c);
        }
    }
    // and the negated translation sits in the bottom row
    assert_eq!(wit.m[0 * 4 + 3], -t);
    assert_eq!(wit.m[1 * 4 + 3], 0);
    assert_eq!(wit.m[2 * 4 + 3], t);
    assert_eq!(wit.m[15], FX_ONE);
}

#[test]
fn degenerate_scale_has_no_normal_matrix() {
    let obj = Object {
        model: 0,
        scale: scaling(0, 0, 0),
        rotation: identity(),
        translation: identity(),
    };
    assert!(obj.world_inverse_transpose().is_none());
}

#[test]
fn transition_endpoints_are_exact() {
    let start = quat_identity();
    let end = Quat { x: 0, y: -46341, z: 0, w: 46341 };
    let mut tr = CameraRotationTransition::new(start, end, 5000, 6000);
    let mut cam = start;
    tr.update(&mut cam, 5000);
    assert_eq!(cam, start);
    assert!(!tr.finished);
    tr.update(&mut cam, 6000);
    assert_eq!(cam, end);
    assert!(tr.finished);
    // a finished transition is inert
    let frozen = cam;
    tr.update(&mut cam, 99000);
    assert_eq!(cam, frozen);
}

#[test]
fn transition_is_monotone_into_the_end_orientation() {
    let start = quat_identity();
    let end = Quat { x: 0, y: -46341, z: 0, w: 46341 };
    let mut tr = CameraRotationTransition::new(start, end, 0, 1000);
    let mut cam = start;
    tr.update(&mut cam, 500);
    assert!(!tr.finished);
    // the eased parameter at half time is well past half way
    assert!(cam.y < -40000 && cam.y > -46341 - 100);
}

fn test_uniform_map() -> UniformLocationMap {
    let names = [
        "u_view",
        "u_projection",
        "u_camera_position",
        "u_lights[0].position",
        "u_lights[0].color",
        "u_lights[0].attentuation_coefficient",
        "u_num_lights",
        "u_color_map",
        "u_specular_map",
        "u_normal_map",
        "u_world",
        "u_world_inverse_transpose",
    ];
    let mut entries: Vec<(String, u32)> = Vec::new();
    for (i, n) in names.iter().enumerate() {
        entries.push((n.to_string(), i as u32));
    }
    UniformLocationMap::from_pairs(entries)
}

fn test_renderer(num_facings: usize) -> Renderer {
    let mesh = Mesh::new(1, 2, 36);
    let model = Model::new(0, 10, 11, 12);
    let object = create_block(0, 0);
    Renderer::new(test_uniform_map(), vec![mesh], vec![model], vec![object], num_facings)
}

#[test]
fn four_right_rotations_return_to_the_start_facing() {
    let mut r = test_renderer(4);
    assert_eq!(r.camera_direction_index, 0);
    let start_orientation = r.camera_rotation;
    r.rotate_camera_right(0);
    r.rotate_camera_right(1000);
    r.rotate_camera_right(2000);
    r.rotate_camera_right(3000);
    assert_eq!(r.camera_direction_index, 0);
    let tr = r.camera_transition.expect("a transition is in flight");
    assert_eq!(tr.end_quat, facing_orientation(0, 4));
    assert_eq!(tr.end_quat, start_orientation);
    assert_eq!(tr.start_time, 3000);
    assert_eq!(tr.end_time, 4000);
}

#[test]
fn left_then_right_rotation_cancel_on_the_index() {
    let mut r = test_renderer(8);
    r.rotate_camera_left(0);
    assert_eq!(r.camera_direction_index, 7);
    let tr = r.camera_transition.expect("a transition is in flight");
    assert_eq!(tr.end_quat, facing_orientation(7, 8));
    r.rotate_camera_right(100);
    assert_eq!(r.camera_direction_index, 0);
}

#[test]
fn render_emits_one_draw_per_object_with_resolved_handles() {
    let mut r = test_renderer(8);
    let frame = r.render(0, 800, 600, FX_ONE, 0);
    assert_eq!(frame.view_loc, 0);
    assert_eq!(frame.projection_loc, 1);
    assert_eq!(frame.camera_position_loc, 2);
    assert_eq!(frame.light_position_loc, 3);
    assert_eq!(frame.light_color_loc, 4);
    assert_eq!(frame.light_attenuation_loc, 5);
    assert_eq!(frame.num_lights_loc, 6);
    assert_eq!(frame.color_map_loc, 7);
    assert_eq!(frame.specular_map_loc, 8);
    assert_eq!(frame.normal_map_loc, 9);
    assert_eq!(frame.world_loc, 10);
    assert_eq!(frame.world_inverse_transpose_loc, 11);
    assert_eq!(frame.num_lights, 1);
    assert_eq!(frame.color_map_unit, 0);
    assert_eq!(frame.specular_map_unit, 1);
    assert_eq!(frame.normal_map_unit, 2);
    assert_eq!(frame.light_color, (FX_ONE, FX_ONE, FX_ONE));
    assert_eq!(frame.camera_position, (0, 0, 0));
    assert_eq!(frame.draws.len(), 1);
    let d = &frame.draws[0];
    assert_eq!(d.vao, 1);
    assert_eq!(d.index_buffer, 2);
    assert_eq!(d.num_indices, 36);
    assert_eq!((d.color_map, d.specular_map, d.normal_map), (10, 11, 12));
    assert!(d.world_inverse_transpose.is_some());
    // facing the first direction, the camera matrix is the identity, so
    // the view matrix is too
    let view = frame.view.expect("identity camera is invertible");
    assert_eq!(view.m, identity().m);
    // the object's rotation was re-derived from the spin parameters
    assert_eq!(r.objects[0].rotation.m[0], FX_ONE);
}

#[test]
fn render_advances_and_discards_a_finished_transition() {
    let mut r = test_renderer(8);
    let start = r.camera_rotation;
    r.rotate_camera_right(0);
    assert!(r.camera_transition.is_some());
    let _ = r.render(400, 800, 600, FX_ONE, 0);
    assert!(r.camera_transition.is_some());
    assert_ne!(r.camera_rotation, start);
    let _ = r.render(1000, 800, 600, FX_ONE, 0);
    assert!(r.camera_transition.is_none());
    assert_eq!(r.camera_rotation, facing_orientation(1, 8));
}

#[test]
fn spin_angle_is_the_scaled_period_fraction() {
    assert_eq!(spin_angle(0), 0);
    assert_eq!(spin_angle(2500), FX_ONE / 4);
    assert_eq!(spin_angle(12500), FX_ONE / 4);
    assert_eq!(spin_angle(9999), 9999 * FX_ONE / 10000);
}

#[test]
fn block_ring_positions() {
    assert_eq!(block_translation(0), (600 * FX_ONE, 0));
    assert_eq!(block_translation(2), (0, -600 * FX_ONE));
    assert_eq!(block_translation(4), (-600 * FX_ONE, 0));
    assert_eq!(block_translation(1), (27804570, -27804570));
}

#[test]
fn build_outcome_is_all_or_nothing() {
    let ok = build_outcome(true, String::new(), true, String::new(), true, String::new());
    assert!(ok.is_ok());
    let vs = build_outcome(false, "bad vs".to_string(), true, String::new(), true,
        String::new());
    assert!(matches!(vs, Err(ProgramError::ShaderCompileError { stage: ShaderStage::Vertex, ref log }) if log == "bad vs"));
    let fs = build_outcome(true, String::new(), false, "bad fs".to_string(), true,
        String::new());
    assert!(matches!(fs, Err(ProgramError::ShaderCompileError { stage: ShaderStage::Fragment, ref log }) if log == "bad fs"));
    let link = build_outcome(true, String::new(), true, String::new(), false,
        "bad link".to_string());
    assert!(matches!(link, Err(ProgramError::ShaderLinkError { ref log }) if log == "bad link"));
}

#[test]
fn introspection_keeps_only_what_the_gpu_reports_active() {
    // a program whose only active attribute is a_position: the unused
    // a_uv never shows up in the enumeration, so it is absent from the map
    let infos = vec![("a_position".to_string(), GL_FLOAT_VEC3)];
    let attrs = build_attributes(infos).expect("vec3 is supported");
    assert_eq!(attrs.len(), 1);
    assert_eq!(attrs[0].name, "a_position");
    assert_eq!(attrs[0].index, 0);
    assert_eq!(attrs[0].size, 3);
    assert_eq!(attrs[0].type_, GL_FLOAT);
    assert!(!attrs.iter().any(|a| a.name == "a_uv"));
}

#[test]
fn unsupported_attribute_type_fails_introspection() {
    assert!(attribute_layout(GL_FLOAT_VEC2).is_ok());
    let mat4_code: u32 = 0x8B5C;
    let bad = build_attributes(vec![
        ("a_position".to_string(), GL_FLOAT_VEC3),
        ("a_weird".to_string(), mat4_code),
    ]);
    assert!(matches!(bad, Err(ProgramError::UnsupportedAttributeType { type_code }) if type_code == mat4_code));
}

#[test]
fn uniform_lookup_finds_only_present_names() {
    let map = test_uniform_map();
    assert_eq!(map.get(&"u_world".to_string()), Some(10));
    assert_eq!(map.get(&"u_missing".to_string()), None);
}

#[test]
fn mesh_view_validation_accepts_a_consistent_layout() {
    let views = MeshViews {
        buffer_uri: "cube.bin".to_string(),
        positions: (0, 288),
        normals: (288, 288),
        texcoords: (576, 192),
        indices: (768, 72),
    };
    let dims = validate_mesh_views(&views, 840).expect("the layout is consistent");
    assert_eq!(dims.vertex_count, 24);
    assert_eq!(dims.index_count, 36);
    assert_eq!(dims.triangle_count, 12);
}

#[test]
fn mesh_view_validation_rejects_each_defect() {
    let good = MeshViews {
        buffer_uri: "cube.bin".to_string(),
        positions: (0, 288),
        normals: (288, 288),
        texcoords: (576, 192),
        indices: (768, 72),
    };
    let short = validate_mesh_views(&good, 800);
    assert!(matches!(short, Err(MeshError::ViewOutOfBounds)));
    let misaligned = MeshViews { positions: (0, 290), ..copy_views(&good) };
    assert!(matches!(validate_mesh_views(&misaligned, 840), Err(MeshError::MisalignedView)));
    let ragged = MeshViews { indices: (768, 8), ..copy_views(&good) };
    assert!(matches!(
        validate_mesh_views(&ragged, 840),
        Err(MeshError::IndexCountNotTriangles)
    ));
    let mismatched = MeshViews { normals: (288, 276), ..copy_views(&good) };
    assert!(matches!(
        validate_mesh_views(&mismatched, 840),
        Err(MeshError::VertexCountMismatch)
    ));
}

fn copy_views(v: &MeshViews) -> MeshViews {
    MeshViews {
        buffer_uri: v.buffer_uri.clone(),
        positions: v.positions,
        normals: v.normals,
        texcoords: v.texcoords,
        indices: v.indices,
    }
}

#[test]
fn mesh_views_come_from_the_document() {
    let doc = r#"{
        "asset": {"version": "2.0"},
        "buffers": [{"uri": "cube.bin", "byteLength": 840}],
        "bufferViews": [
            {"buffer": 0, "byteOffset": 0, "byteLength": 288},
            {"buffer": 0, "byteOffset": 288, "byteLength": 288},
            {"buffer": 0, "byteOffset": 576, "byteLength": 192},
            {"buffer": 0, "byteOffset": 768, "byteLength": 72}
        ],
        "accessors": [
            {"bufferView": 0, "componentType": 5126, "count": 24, "type": "VEC3",
             "min": [-1.0, -1.0, -1.0], "max": [1.0, 1.0, 1.0]},
            {"bufferView": 1, "componentType": 5126, "count": 24, "type": "VEC3"},
            {"bufferView": 2, "componentType": 5126, "count": 24, "type": "VEC2"},
            {"bufferView": 3, "componentType": 5123, "count": 36, "type": "SCALAR"}
        ],
        "meshes": [{"primitives": [{
            "attributes": {"POSITION": 0, "NORMAL": 1, "TEXCOORD_0": 2},
            "indices": 3
        }]}]
    }"#;
    let views = mesh_views_from_document(&doc.as_bytes().to_vec())
        .expect("the document is decodable");
    assert_eq!(views.buffer_uri, "cube.bin");
    assert_eq!(views.positions, (0, 288));
    assert_eq!(views.normals, (288, 288));
    assert_eq!(views.texcoords, (576, 192));
    assert_eq!(views.indices, (768, 72));
    let dims = validate_mesh_views(&views, 840).expect("the views are consistent");
    assert_eq!(dims.vertex_count, 24);
    assert_eq!(dims.triangle_count, 12);
}

#[test]
fn undecodable_documents_are_rejected_not_panicked() {
    assert!(matches!(
        mesh_views_from_document(&b"not a gltf document".to_vec()),
        Err(MeshError::Parse)
    ));
    // a binary container whose declared total length is shorter than its
    // own twelve-byte header: the sane-header check keeps it away from
    // the parser entirely
    let mut lying = b"glTF".to_vec();
    lying.extend_from_slice(&2u32.to_le_bytes());
    lying.extend_from_slice(&4u32.to_le_bytes());
    assert!(matches!(mesh_views_from_document(&lying), Err(MeshError::Parse)));
    // a document whose primitive lacks the texture-coordinate semantic
    let incomplete = r#"{
        "asset": {"version": "2.0"},
        "buffers": [{"uri": "cube.bin", "byteLength": 288}],
        "bufferViews": [{"buffer": 0, "byteOffset": 0, "byteLength": 288}],
        "accessors": [{"bufferView": 0, "componentType": 5126, "count": 24, "type": "VEC3",
            "min": [-1.0, -1.0, -1.0], "max": [1.0, 1.0, 1.0]}],
        "meshes": [{"primitives": [{"attributes": {"POSITION": 0}}]}]
    }"#;
    assert!(matches!(
        mesh_views_from_document(&incomplete.as_bytes().to_vec()),
        Err(MeshError::Parse)
    ));
}

#[test]
fn glb_header_check_accepts_json_and_rejects_lying_headers() {
    // anything without the binary magic passes straight through
    assert!(glb_header_check(&b"{}".to_vec()));
    assert!(glb_header_check(&b"gl".to_vec()));
    // a declared length below the header size is the one rejected shape
    let mut lying = b"glTF".to_vec();
    lying.extend_from_slice(&2u32.to_le_bytes());
    lying.extend_from_slice(&11u32.to_le_bytes());
    assert!(!glb_header_check(&lying));
    let mut sane = b"glTF".to_vec();
    sane.extend_from_slice(&2u32.to_le_bytes());
    sane.extend_from_slice(&12u32.to_le_bytes());
    assert!(glb_header_check(&sane));
}

#[test]
fn cube_data_is_pinned_to_the_unit_cube() {
    let p = cube_positions();
    assert_eq!(&p[0..3], &[-FX_ONE, -FX_ONE, FX_ONE]);
    assert_eq!(&p[69..72], &[-FX_ONE, FX_ONE, -FX_ONE]);
    let n = cube_normals();
    assert_eq!(&n[0..3], &[0, 0, FX_ONE]);
    assert_eq!(&n[69..72], &[-FX_ONE, 0, 0]);
    let t = cube_texcoords();
    assert_eq!(&t[0..8], &[0, 0, 0, FX_ONE, FX_ONE, FX_ONE, FX_ONE, 0]);
}

#[test]
fn cube_mesh_buffers_need_no_outside_data() {
    let b = cube_mesh_buffers();
    assert_eq!(b.num_indices, 36);
    assert_eq!(b.indices, cube_indices());
    assert_eq!(b.positions, cube_positions());
    let (tan, bit) = calc_tangents_bitangents(&b.indices, &b.positions, &b.texcoords);
    assert_eq!(b.tangents, tan);
    assert_eq!(b.bitangents, bit);
}

#[test]
fn prepared_mesh_buffers_carry_everything_one_upload_needs() {
    let buffers = prepare_mesh_buffers(cube_indices(), cube_positions(), cube_normals(),
        cube_texcoords());
    assert_eq!(buffers.num_indices, 36);
    assert_eq!(buffers.indices.len(), 36);
    assert_eq!(buffers.positions.len(), 72);
    assert_eq!(buffers.normals.len(), 72);
    assert_eq!(buffers.texcoords.len(), 48);
    assert_eq!(buffers.tangents.len(), 72);
    assert_eq!(buffers.bitangents.len(), 72);
}
