//! Shader-program bookkeeping: the all-or-nothing build outcome, attribute
//! introspection, and the name-to-handle uniform-location map.
//!
//! The GPU compiles, links and enumerates; this module owns every decision
//! made from what the GPU reports. Handles are small integers the caller
//! resolves back to its own GPU objects.
use vstd::prelude::*;

verus! {

/// GL scalar type code for a 32-bit float.
pub const GL_FLOAT: u32 = 0x1406;

/// GL type code for a two-component float vector attribute.
pub const GL_FLOAT_VEC2: u32 = 0x8B50;

/// GL type code for a three-component float vector attribute.
pub const GL_FLOAT_VEC3: u32 = 0x8B51;

/// Which shader stage a diagnostic belongs to.
#[derive(Clone, Copy, PartialEq, Eq, Structural, Debug)]
pub enum ShaderStage {
    Vertex,
    Fragment,
}

/// Why a program could not be built or introspected.
#[derive(Debug)]
pub enum ProgramError {
    /// A stage failed to compile; carries the stage and its diagnostic log.
    ShaderCompileError { stage: ShaderStage, log: String },
    /// The two stages failed to link; carries the diagnostic log.
    ShaderLinkError { log: String },
    /// A shader declared an active attribute outside the closed world of
    /// float vectors of size 2 or 3 that the vertex formats support.
    UnsupportedAttributeType { type_code: u32 },
}

/// One active vertex attribute of a linked program.
pub struct Attribute {
    pub name: String,
    pub index: u32,
    pub size: i32,
    pub type_: u32,
}

/// The attribute type codes the renderer's fixed vertex formats support.
pub open spec fn supported_attribute(type_code: u32) -> bool {
    type_code == GL_FLOAT_VEC2 || type_code == GL_FLOAT_VEC3
}

/// The all-or-nothing outcome of building a program, decided from each
/// stage's compile status and the link status the GPU reported: the first
/// failing stage's diagnostics win, and no partial program survives.
pub fn build_outcome(
    vertex_ok: bool, vertex_log: String, fragment_ok: bool, fragment_log: String, link_ok: bool,
    link_log: String,
) -> (res: Result<(), ProgramError>)
    ensures
        res is Ok <==> vertex_ok && fragment_ok && link_ok,
        !vertex_ok ==> res == Err::<(), ProgramError>(ProgramError::ShaderCompileError {
            stage: ShaderStage::Vertex, log: vertex_log }),
        vertex_ok && !fragment_ok ==> res == Err::<(), ProgramError>(
            ProgramError::ShaderCompileError { stage: ShaderStage::Fragment, log: fragment_log }),
        vertex_ok && fragment_ok && !link_ok ==> res == Err::<(), ProgramError>(
            ProgramError::ShaderLinkError { log: link_log }),
{
    if !vertex_ok {
        Err(ProgramError::ShaderCompileError { stage: ShaderStage::Vertex, log: vertex_log })
    } else if !fragment_ok {
        Err(ProgramError::ShaderCompileError { stage: ShaderStage::Fragment, log: fragment_log })
    } else if !link_ok {
        Err(ProgramError::ShaderLinkError { log: link_log })
    } else {
        Ok(())
    }
}

/// The component count and scalar kind for one supported attribute type.
pub fn attribute_layout(type_code: u32) -> (res: Result<(i32, u32), ProgramError>)
    ensures
        res is Ok <==> supported_attribute(type_code),
        type_code == GL_FLOAT_VEC3 ==> res == Ok::<(i32, u32), ProgramError>((3i32, GL_FLOAT)),
        type_code == GL_FLOAT_VEC2 ==> res == Ok::<(i32, u32), ProgramError>((2i32, GL_FLOAT)),
        !supported_attribute(type_code) ==> res == Err::<(i32, u32), ProgramError>(
            ProgramError::UnsupportedAttributeType { type_code }),
{
    if type_code == GL_FLOAT_VEC3 {
        Ok((3, GL_FLOAT))
    } else if type_code == GL_FLOAT_VEC2 {
        Ok((2, GL_FLOAT))
    } else {
        Err(ProgramError::UnsupportedAttributeType { type_code })
    }
}

/// Builds the attribute table from the active attributes the GPU
/// enumerated, in enumeration order: entry `i` keeps its name, binds slot
/// `i`, and takes its component count from its type code. The first
/// unsupported type code fails the whole introspection.
pub fn build_attributes(infos: Vec<(String, u32)>) -> (res: Result<Vec<Attribute>, ProgramError>)
    requires
        infos@.len() <= u32::MAX,
    ensures
        res is Ok <==> (forall|i: int|
            0 <= i < infos@.len() ==> supported_attribute(#[trigger] infos@[i].1)),
        res is Ok ==> {
            let out = res->Ok_0;
            &&& out@.len() == infos@.len()
            &&& forall|i: int|
                0 <= i < infos@.len() ==> {
                    &&& (#[trigger] out@[i]).name == infos@[i].0
                    &&& out@[i].index == i
                    &&& out@[i].type_ == GL_FLOAT
                    &&& (infos@[i].1 == GL_FLOAT_VEC3 ==> out@[i].size == 3)
                    &&& (infos@[i].1 == GL_FLOAT_VEC2 ==> out@[i].size == 2)
                }
        },
        res is Err ==> exists|i: int|
            0 <= i < infos@.len() && !supported_attribute(#[trigger] infos@[i].1) && (
            forall|j: int| 0 <= j < i ==> supported_attribute(#[trigger] infos@[j].1))
                && res == Err::<Vec<Attribute>, ProgramError>(
                ProgramError::UnsupportedAttributeType { type_code: infos@[i].1 }),
{
    let mut out: Vec<Attribute> = Vec::new();
    let mut i: usize = 0;
    while i < infos.len()
        invariant
            infos@.len() <= u32::MAX,
            i <= infos@.len(),
            out@.len() == i,
            forall|j: int| 0 <= j < i ==> supported_attribute(#[trigger] infos@[j].1),
            forall|j: int|
                0 <= j < i ==> {
                    &&& (#[trigger] out@[j]).name == infos@[j].0
                    &&& out@[j].index == j
                    &&& out@[j].type_ == GL_FLOAT
                    &&& (infos@[j].1 == GL_FLOAT_VEC3 ==> out@[j].size == 3)
                    &&& (infos@[j].1 == GL_FLOAT_VEC2 ==> out@[j].size == 2)
                },
        decreases infos@.len() - i,
    {
        let (name, type_code) = (infos[i].0.clone(), infos[i].1);
        let layout = attribute_layout(type_code);
        match layout {
            Ok((size, scalar)) => {
                out.push(Attribute { name, index: i as u32, size, type_: scalar });
            },
            Err(e) => {
                return Err(e);
            },
        }
        i += 1;
    }
    Ok(out)
}

/// The name-to-handle map for a program's active uniforms, resolved once at
/// link time and read-only afterwards.
pub struct UniformLocationMap {
    pub entries: Vec<(String, u32)>,
}

impl UniformLocationMap {
    /// Some entry carries this uniform name.
    pub open spec fn contains_name(&self, name: Seq<char>) -> bool {
        exists|i: int| 0 <= i < self.entries@.len() && (#[trigger] self.entries@[i]).0@ == name
    }

    /// Every name appears at most once, as the introspection that builds
    /// the map enumerates each active uniform once.
    pub open spec fn wf(&self) -> bool {
        forall|i: int, j: int|
            0 <= i < j < self.entries@.len() ==> (#[trigger] self.entries@[i]).0@ != (
            #[trigger] self.entries@[j]).0@
    }

    /// The handle stored under a name the map contains.
    pub open spec fn handle_of(&self, name: Seq<char>) -> u32 {
        let i = choose|i: int|
            0 <= i < self.entries@.len() && (#[trigger] self.entries@[i]).0@ == name;
        self.entries@[i].1
    }

    /// A map over the given `(name, handle)` pairs, in enumeration order.
    pub fn from_pairs(entries: Vec<(String, u32)>) -> (res: UniformLocationMap)
        ensures
            res.entries@ == entries@,
    {
        UniformLocationMap { entries }
    }

    /// The handle of the first entry with this name, or `None` exactly when
    /// the program has no active uniform of that name.
    pub fn get(&self, name: &String) -> (res: Option<u32>)
        ensures
            res is Some <==> self.contains_name(name@),
            res is Some ==> exists|i: int|
                0 <= i < self.entries@.len() && (#[trigger] self.entries@[i]).0@ == name@
                    && self.entries@[i].1 == res->Some_0 && (forall|j: int|
                    0 <= j < i ==> (#[trigger] self.entries@[j]).0@ != name@),
            self.wf() && res is Some ==> res == Some(self.handle_of(name@)),
    {
        let mut i: usize = 0;
        while i < self.entries.len()
            invariant
                i <= self.entries@.len(),
                forall|j: int| 0 <= j < i ==> (#[trigger] self.entries@[j]).0@ != name@,
            decreases self.entries@.len() - i,
        {
            if self.entries[i].0 == *name {
                return Some(self.entries[i].1);
            }
            i += 1;
        }
        None
    }
}

} // verus!
