//! A model: one shared mesh plus its three texture maps.
//!
//! Several models may reference the same mesh, so a model holds an index
//! into the renderer's mesh arena rather than the mesh itself. The three
//! texture handles are bound to texture units 0, 1 and 2 when the model is
//! drawn: color, specular, normal.
use vstd::prelude::*;

verus! {

/// A mesh reference with the three texture maps applied to it.
pub struct Model {
    /// Index of the shared mesh in the renderer's mesh arena.
    pub mesh: usize,
    pub color_map: u32,
    pub specular_map: u32,
    pub normal_map: u32,
}

impl Model {
    /// A model over the given mesh and texture handles.
    pub fn new(mesh: usize, color_map: u32, specular_map: u32, normal_map: u32) -> (res: Model)
        ensures
            res.mesh == mesh,
            res.color_map == color_map,
            res.specular_map == specular_map,
            res.normal_map == normal_map,
    {
        Model { mesh, color_map, specular_map, normal_map }
    }
}

} // verus!
