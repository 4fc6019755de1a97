//! Mesh rendering components: the material an entity is drawn with and the
//! key renderers sort draws by. The drawing itself is the renderer's work.

use vstd::prelude::*;

verus! {

/// What a mesh is drawn with.
#[derive(Debug, Clone, PartialEq)]
pub enum Material {
    /// Custom vertex and fragment shaders, by asset id.
    Shader { vertex_shader_id: String, fragment_shader_id: String },
    /// A sprite from a spritesheet.
    Sprite { sprite_id: String, sprite_nb: u32, columns: u32, rows: u32 },
}

/// A material's contribution to the draw-sorting key.
pub open spec fn spec_material_id(m: Material) -> u16 {
    match m {
        Material::Sprite { .. } => 1u16,
        Material::Shader { .. } => 2u16,
    }
}

impl Material {
    pub fn material_id(&self) -> (id: u16)
        ensures
            id == spec_material_id(*self),
    {
        match self {
            Material::Sprite { .. } => 1,
            Material::Shader { .. } => 2,
        }
    }
}

/// Marks an entity as drawn with a material at a depth.
#[derive(Debug, Clone, PartialEq)]
pub struct MeshRender {
    pub enabled: bool,
    pub material: Material,
    /// Draw depth: larger depths are drawn first.
    pub depth: u16,
}

impl MeshRender {
    /// The sort key for draw ordering: depth in the high half, material id
    /// in the low half, so draws order by depth first, then by material.
    pub fn sorting_key(&self) -> (k: u32)
        ensures
            k == self.depth * 0x10000 + spec_material_id(self.material),
    {
        let high = (self.depth as u32) * 0x10000;
        let low = self.material.material_id() as u32;
        high + low
    }
}

} // verus!
