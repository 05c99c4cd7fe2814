use vstd::prelude::*;

verus! {

// Floating-point values are held as their IEEE-754 bit patterns (`f32::to_bits`):
// the library moves them around and never computes with them.

/// One color set: three or four channels per vertex, normalized to 0..1.
#[derive(Debug, Clone)]
pub enum Color {
    Rgb(Vec<[u32; 3]>),
    Rgba(Vec<[u32; 4]>),
}

/// One set of texture coordinates.
#[derive(Debug, Clone)]
pub struct Uv(pub Vec<[u32; 2]>);

/// The per-vertex attribute streams of one primitive.
#[derive(Debug, Clone)]
pub struct VertexData {
    pub positions: Vec<[u32; 3]>,
    pub normals: Option<Vec<[u32; 3]>>,
    /// xyz plus handedness in the fourth component.
    pub tangents: Option<Vec<[u32; 4]>>,
    pub texcoords: Vec<Uv>,
    pub colors: Vec<Color>,
    pub joints: Option<Vec<[u16; 4]>>,
    pub weights: Option<Vec<[u32; 4]>>,
}

impl Color {
    /// Channels per vertex.
    pub open spec fn components(self) -> nat {
        match self {
            Color::Rgb(_) => 3,
            Color::Rgba(_) => 4,
        }
    }

    /// Number of vertices the set covers.
    pub open spec fn count(self) -> nat {
        match self {
            Color::Rgb(v) => v@.len(),
            Color::Rgba(v) => v@.len(),
        }
    }

    /// The channels of vertex `i`.
    pub open spec fn at(self, i: int) -> Seq<u32> {
        match self {
            Color::Rgb(v) => v@[i]@,
            Color::Rgba(v) => v@[i]@,
        }
    }
}

impl VertexData {
    /// Number of vertices.
    pub open spec fn vertex_count(&self) -> nat {
        self.positions@.len()
    }

    /// Whether skinning streams (joints or weights) are present.
    pub open spec fn has_skinning(&self) -> bool {
        self.joints.is_some() || self.weights.is_some()
    }

    /// Every present stream covers exactly the vertices that the positions do.
    pub open spec fn streams_consistent(&self) -> bool {
        let n = self.vertex_count();
        &&& (self.normals matches Some(v) ==> v@.len() == n)
        &&& (self.tangents matches Some(v) ==> v@.len() == n)
        &&& (forall|k: int| 0 <= k < self.texcoords@.len() ==> (#[trigger] self.texcoords@[k]).0@.len() == n)
        &&& (forall|k: int| 0 <= k < self.colors@.len() ==> (#[trigger] self.colors@[k]).count() == n)
        &&& (self.joints matches Some(v) ==> v@.len() == n)
        &&& (self.weights matches Some(v) ==> v@.len() == n)
    }
}

/// A decoded texture: 4 channels of 8 bits per pixel, rows stored bottom-up
/// relative to the source file.
#[derive(Debug, Clone)]
pub struct LoadedTexture {
    pub name: String,
    pub path: String,
    pub width: u32,
    pub height: u32,
    pub data: Vec<u8>,
}

/// A material as referenced by a primitive. Texture references are paths;
/// images embedded in a buffer are not supported and read as `None`.
#[derive(Debug, Clone)]
pub struct LoadedMaterial {
    pub base_color_texture: Option<String>,
    pub metallic_roughness_texture: Option<String>,
    pub normal_texture: Option<String>,
    pub occlusion_texture: Option<String>,
    pub emissive_texture: Option<String>,
    /// Fallback when there is no base color texture.
    pub base_color_factor: Color,
    pub metallic_factor: u32,
    pub roughness_factor: u32,
    /// Whether the material blends by alpha.
    pub alpha_mode: bool,
    pub double_sided: bool,
}

/// One drawable part of a mesh.
#[derive(Debug, Clone)]
pub struct LoadedPrimitive {
    pub vertex_data: Box<VertexData>,
    pub material: Option<LoadedMaterial>,
    /// `None` for a non-indexed primitive.
    pub indices: Option<Vec<u32>>,
}

/// A decoded mesh: its primitives in the order of the source file.
#[derive(Debug, Clone)]
pub struct LoadedMesh {
    pub name: String,
    pub path: String,
    pub primitives: Vec<LoadedPrimitive>,
}

#[derive(Debug, Clone)]
pub struct CompiledShaderProgram {
    pub name: String,
    pub path: String,
}

} // verus!
