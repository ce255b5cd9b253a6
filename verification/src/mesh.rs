//! A mesh: the GPU-side remains of one piece of geometry.
//!
//! The heavy lifting — deriving tangents and bitangents and validating the
//! source arrays — happens in plain values before anything is uploaded; the
//! mesh itself keeps only the handles of the uploaded vertex-layout object
//! and index buffer, and how many 16-bit indices one draw consumes.
use vstd::prelude::*;
use gltf::Gltf;
use gltf::Semantic;
use gltf::buffer::Source;
use crate::tangent::{tangent_input_wf, tri_total, slots_after, calc_tangents_bitangents};
use crate::cube::{cube_indices, cube_positions, cube_normals, cube_texcoords,
    cube_indices_seq, cube_positions_seq, cube_normals_seq, cube_texcoords_seq,
    lemma_cube_tangent_input_wf};

verus! {

/// Why a mesh source was rejected.
#[derive(Debug)]
pub enum MeshError {
    /// The bytes are not a well-formed glTF document carrying the layout
    /// this renderer consumes: one mesh, one primitive, the position,
    /// normal and texture-coordinate semantics, indices, and a URI-backed
    /// buffer.
    Parse,
    /// A buffer view reaches past the end of the fetched buffer.
    ViewOutOfBounds,
    /// A view's length is not a whole number of its elements.
    MisalignedView,
    /// The index count does not describe whole triangles.
    IndexCountNotTriangles,
    /// The position, normal and texture-coordinate views disagree on the
    /// vertex count.
    VertexCountMismatch,
}

/// Byte ranges of the four per-semantic buffer views of a single-primitive
/// mesh, plus the URI of the buffer that backs them.
pub struct MeshViews {
    pub buffer_uri: String,
    pub positions: (u64, u64),
    pub normals: (u64, u64),
    pub texcoords: (u64, u64),
    pub indices: (u64, u64),
}

/// The element counts of a validated mesh source.
pub struct MeshDims {
    pub vertex_count: u64,
    pub index_count: u64,
    pub triangle_count: u64,
}

/// The bytes carry the binary glTF container magic `glTF`.
pub open spec fn glb_magic(bytes: Seq<u8>) -> bool {
    bytes.len() >= 4 && bytes[0] == 0x67u8 && bytes[1] == 0x6cu8 && bytes[2] == 0x54u8
        && bytes[3] == 0x46u8
}

/// The total length a binary glTF container declares for itself: the
/// little-endian word at byte offset eight of its twelve-byte header.
pub open spec fn glb_declared_len(bytes: Seq<u8>) -> int {
    bytes[8] + 0x100 * bytes[9] + 0x10000 * bytes[10] + 0x1000000 * bytes[11]
}

/// The binary-container header is sane: if the bytes carry the binary
/// magic and a whole header, the declared total length covers the header
/// itself. The binary parser subtracts the header size from the declared
/// length without checking it first, so a declared length below twelve
/// must be kept away from it.
pub open spec fn glb_header_ok(bytes: Seq<u8>) -> bool {
    glb_magic(bytes) && bytes.len() >= 12 ==> glb_declared_len(bytes) >= 12
}

/// Decides `glb_header_ok` on the raw bytes.
pub fn glb_header_check(bytes: &Vec<u8>) -> (r: bool)
    ensures
        r == glb_header_ok(bytes@),
{
    if bytes.len() < 4 {
        return true;
    }
    if !(bytes[0] == 0x67 && bytes[1] == 0x6c && bytes[2] == 0x54 && bytes[3] == 0x46) {
        return true;
    }
    if bytes.len() < 12 {
        return true;
    }
    let declared: u64 = bytes[8] as u64 + 0x100 * (bytes[9] as u64) + 0x10000 * (
        bytes[10] as u64) + 0x1000000 * (bytes[11] as u64);
    declared >= 12
}

/// The URI of the first buffer of the glTF document the bytes describe,
/// where the bytes decode to a document whose first buffer is URI-backed.
/// A pure function of the bytes.
pub uninterp spec fn gltf_doc_uri(bytes: Seq<u8>) -> Option<String>;

/// The byte ranges — offset and length — of the buffer views backing the
/// position, normal, texture-coordinate and index accessors of the first
/// mesh's first primitive of the glTF document the bytes describe, where
/// the bytes decode to a document carrying all four. A pure function of
/// the bytes.
pub uninterp spec fn gltf_doc_ranges(bytes: Seq<u8>) -> Option<
    ((u64, u64), (u64, u64), (u64, u64), (u64, u64))>;

/// Relies on gltf::Gltf::from_slice (parse plus validation) and
/// gltf::buffer::Buffer::source: both depend on the bytes alone. The
/// sane-header precondition keeps out the one input the binary parser is
/// known to panic on, a declared container length shorter than its own
/// header.
#[verifier::external_body]
fn gltf_read_uri(bytes: &Vec<u8>) -> (r: Option<String>)
    requires
        glb_header_ok(bytes@),
    ensures
        r == gltf_doc_uri(bytes@),
{
    let g = Gltf::from_slice(bytes.as_slice()).ok()?;
    match g.buffers().next()?.source() {
        Source::Uri(u) => Some(String::from(u)),
        Source::Bin => None,
    }
}

/// Relies on gltf::Gltf::from_slice (parse plus validation) and the
/// document accessors Mesh::primitives, Primitive::get,
/// Primitive::indices, Accessor::view and View::offset/length: what they
/// return depends on the bytes alone. The same sane-header precondition
/// as `gltf_read_uri` keeps out the binary parser's one panicking input.
#[verifier::external_body]
fn gltf_read_ranges(bytes: &Vec<u8>) -> (r: Option<
    ((u64, u64), (u64, u64), (u64, u64), (u64, u64))>)
    requires
        glb_header_ok(bytes@),
    ensures
        r == gltf_doc_ranges(bytes@),
{
    let g = Gltf::from_slice(bytes.as_slice()).ok()?;
    let p = g.meshes().next()?.primitives().next()?;
    let pos = p.get(&Semantic::Positions)?.view()?;
    let nor = p.get(&Semantic::Normals)?.view()?;
    let tex = p.get(&Semantic::TexCoords(0))?.view()?;
    let idx = p.indices()?.view()?;
    Some((
        (pos.offset() as u64, pos.length() as u64),
        (nor.offset() as u64, nor.length() as u64),
        (tex.offset() as u64, tex.length() as u64),
        (idx.offset() as u64, idx.length() as u64),
    ))
}

/// Reads the four per-semantic buffer views and the backing buffer's URI
/// out of a glTF document's bytes: succeeds, with exactly the views the
/// document describes, if and only if the container header is sane and
/// the document decodes to the single mesh, single primitive layout this
/// renderer consumes. What comes back is still raw; `validate_mesh_views`
/// holds it against the fetched buffer.
pub fn mesh_views_from_document(bytes: &Vec<u8>) -> (res: Result<MeshViews, MeshError>)
    ensures
        res is Ok <==> glb_header_ok(bytes@) && gltf_doc_uri(bytes@) is Some
            && gltf_doc_ranges(bytes@) is Some,
        res is Ok ==> {
            let v = res->Ok_0;
            let ranges = gltf_doc_ranges(bytes@)->Some_0;
            &&& v.buffer_uri == gltf_doc_uri(bytes@)->Some_0
            &&& v.positions == ranges.0
            &&& v.normals == ranges.1
            &&& v.texcoords == ranges.2
            &&& v.indices == ranges.3
        },
        res is Err ==> res->Err_0 is Parse,
{
    if !glb_header_check(bytes) {
        return Err(MeshError::Parse);
    }
    let uri = gltf_read_uri(bytes);
    let ranges = gltf_read_ranges(bytes);
    match (uri, ranges) {
        (Some(buffer_uri), Some(r)) => Ok(MeshViews {
            buffer_uri,
            positions: r.0,
            normals: r.1,
            texcoords: r.2,
            indices: r.3,
        }),
        _ => Err(MeshError::Parse),
    }
}

/// One view stays within a buffer of `len` bytes.
pub open spec fn view_in_bounds(v: (u64, u64), len: int) -> bool {
    v.0 + v.1 <= len
}

/// Every check a mesh source must pass before its arrays are cut out of
/// the fetched buffer: each view in bounds, each view a whole number of
/// its elements (positions and normals are three four-byte floats per
/// vertex, texture coordinates two, indices two bytes each), whole
/// triangles, and one vertex count shared by all three vertex attributes.
pub open spec fn mesh_views_ok(v: MeshViews, buffer_len: int) -> bool {
    &&& view_in_bounds(v.positions, buffer_len)
    &&& view_in_bounds(v.normals, buffer_len)
    &&& view_in_bounds(v.texcoords, buffer_len)
    &&& view_in_bounds(v.indices, buffer_len)
    &&& v.positions.1 % 12 == 0
    &&& v.normals.1 % 12 == 0
    &&& v.texcoords.1 % 8 == 0
    &&& v.indices.1 % 2 == 0
    &&& (v.indices.1 / 2) % 3 == 0
    &&& v.normals.1 / 12 == v.positions.1 / 12
    &&& v.texcoords.1 / 8 == v.positions.1 / 12
}

/// Holds raw buffer views against the fetched buffer: succeeds, with the
/// mesh's element counts, exactly when every structural check passes; the
/// first failed check names the error.
pub fn validate_mesh_views(views: &MeshViews, buffer_len: u64) -> (res: Result<
    MeshDims, MeshError>)
    ensures
        res is Ok <==> mesh_views_ok(*views, buffer_len as int),
        res is Ok ==> {
            let dims = res->Ok_0;
            &&& dims.vertex_count == views.positions.1 / 12
            &&& dims.index_count == views.indices.1 / 2
            &&& dims.triangle_count == views.indices.1 / 6
        },
        res is Err ==> (res->Err_0 is ViewOutOfBounds <==> !(view_in_bounds(
            views.positions, buffer_len as int) && view_in_bounds(
            views.normals, buffer_len as int) && view_in_bounds(
            views.texcoords, buffer_len as int) && view_in_bounds(
            views.indices, buffer_len as int))),
{
    if views.positions.0 > buffer_len || buffer_len - views.positions.0 < views.positions.1 {
        return Err(MeshError::ViewOutOfBounds);
    }
    if views.normals.0 > buffer_len || buffer_len - views.normals.0 < views.normals.1 {
        return Err(MeshError::ViewOutOfBounds);
    }
    if views.texcoords.0 > buffer_len || buffer_len - views.texcoords.0 < views.texcoords.1 {
        return Err(MeshError::ViewOutOfBounds);
    }
    if views.indices.0 > buffer_len || buffer_len - views.indices.0 < views.indices.1 {
        return Err(MeshError::ViewOutOfBounds);
    }
    if views.positions.1 % 12 != 0 || views.normals.1 % 12 != 0 || views.texcoords.1 % 8 != 0
        || views.indices.1 % 2 != 0 {
        return Err(MeshError::MisalignedView);
    }
    if (views.indices.1 / 2) % 3 != 0 {
        return Err(MeshError::IndexCountNotTriangles);
    }
    let vertex_count = views.positions.1 / 12;
    if views.normals.1 / 12 != vertex_count || views.texcoords.1 / 8 != vertex_count {
        return Err(MeshError::VertexCountMismatch);
    }
    proof {
        vstd::arithmetic::div_mod::lemma_div_denominator(views.indices.1 as int, 2, 3);
    }
    Ok(MeshDims {
        vertex_count,
        index_count: views.indices.1 / 2,
        triangle_count: (views.indices.1 / 2) / 3,
    })
}

/// GPU-side handles of one uploaded piece of geometry.
pub struct Mesh {
    pub vao: u32,
    pub index_buffer: u32,
    pub num_indices: i32,
}

impl Mesh {
    /// A mesh over already-uploaded GPU handles.
    pub fn new(vao: u32, index_buffer: u32, num_indices: i32) -> (res: Mesh)
        ensures
            res.vao == vao,
            res.index_buffer == index_buffer,
            res.num_indices == num_indices,
    {
        Mesh { vao, index_buffer, num_indices }
    }
}

/// Everything that must be uploaded for one mesh: the source arrays handed
/// in, the derived tangents and bitangents, and the draw count.
pub struct MeshBuffers {
    pub indices: Vec<u16>,
    pub positions: Vec<i64>,
    pub normals: Vec<i64>,
    pub texcoords: Vec<i64>,
    pub tangents: Vec<i64>,
    pub bitangents: Vec<i64>,
    pub num_indices: i32,
}

/// Derives the per-vertex tangent space and bundles everything one mesh
/// upload needs. The tangent and bitangent arrays are exactly the
/// generator's output; the draw count is the number of indices.
pub fn prepare_mesh_buffers(
    indices: Vec<u16>, positions: Vec<i64>, normals: Vec<i64>, texcoords: Vec<i64>,
) -> (res: MeshBuffers)
    requires
        tangent_input_wf(indices@, positions@, texcoords@),
        indices@.len() <= 0x7fffffff,
    ensures
        res.indices@ == indices@,
        res.positions@ == positions@,
        res.normals@ == normals@,
        res.texcoords@ == texcoords@,
        res.tangents@ == slots_after(indices@, positions@, texcoords@, tri_total(indices@),
            false),
        res.bitangents@ == slots_after(indices@, positions@, texcoords@, tri_total(indices@),
            true),
        res.num_indices == indices@.len(),
{
    let (tangents, bitangents) = calc_tangents_bitangents(&indices, &positions, &texcoords);
    let num_indices = indices.len() as i32;
    MeshBuffers { indices, positions, normals, texcoords, tangents, bitangents, num_indices }
}

/// The built-in cube run through the tangent generator: everything one
/// upload of the cube needs, with no outside data and no preconditions —
/// the cube's arrays are proved to satisfy the generator's demands.
pub fn cube_mesh_buffers() -> (res: MeshBuffers)
    ensures
        res.indices@ == cube_indices_seq(),
        res.positions@ == cube_positions_seq(),
        res.normals@ == cube_normals_seq(),
        res.texcoords@ == cube_texcoords_seq(),
        res.tangents@ == slots_after(cube_indices_seq(), cube_positions_seq(),
            cube_texcoords_seq(), tri_total(cube_indices_seq()), false),
        res.bitangents@ == slots_after(cube_indices_seq(), cube_positions_seq(),
            cube_texcoords_seq(), tri_total(cube_indices_seq()), true),
        res.num_indices == 36,
{
    proof {
        lemma_cube_tangent_input_wf();
    }
    prepare_mesh_buffers(cube_indices(), cube_positions(), cube_normals(), cube_texcoords())
}

} // verus!
