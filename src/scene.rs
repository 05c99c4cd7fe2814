use vstd::prelude::*;
use crate::handles::{MaterialHandle, MeshHandle, ShaderHandle};
use crate::instance::{DynamicMesh, StaticMesh};

verus! {

/// A rectangle of the window, in pixels.
#[derive(Debug, Clone, Copy, PartialEq, Eq, Structural)]
pub struct Viewport {
    pub x: i32,
    pub y: i32,
    pub width: i32,
    pub height: i32,
}

impl Viewport {
    pub fn new(x: i32, y: i32, width: i32, height: i32) -> (r: Self)
        ensures
            r == (Viewport { x, y, width, height }),
    {
        Self { x, y, width, height }
    }

    /// The same rectangle measured from the bottom of a window `window_height`
    /// pixels high, as the graphics backend counts rows; `None` where the
    /// flipped `y` does not fit an `i32`.
    pub fn from_bottom(&self, window_height: u32) -> (r: Option<Viewport>)
        ensures
            r is Some == (i32::MIN <= window_height - self.y - self.height <= i32::MAX),
            r matches Some(v) ==> v == (Viewport {
                x: self.x,
                y: (window_height - self.y - self.height) as i32,
                width: self.width,
                height: self.height,
            }),
    {
        let y = window_height as i64 - self.y as i64 - self.height as i64;
        if y < i32::MIN as i64 || y > i32::MAX as i64 {
            None
        } else {
            Some(Viewport { x: self.x, y: y as i32, width: self.width, height: self.height })
        }
    }
}

/// A material as the editor lists it: texture and shader references by name.
#[derive(Debug, Clone)]
pub struct Material {
    pub name: String,
    pub diffuse_texture: Option<String>,
    pub specular_texture: Option<String>,
    pub normal_texture: Option<String>,
    pub shader_program: Option<String>,
}

/// A compiled shader program known by name.
#[derive(Debug, Clone)]
pub struct ShaderProgram {
    pub name: String,
    pub handle: ShaderHandle,
}

/// A named placement of a loaded mesh in a level.
#[derive(Debug, Clone)]
pub struct MeshInstance {
    pub name: String,
    pub handle: MeshHandle,
}

/// A named use of a loaded material in a level.
#[derive(Debug, Clone)]
pub struct MaterialInstance {
    pub name: String,
    pub handle: MaterialHandle,
}

/// Index of a level in a world.
#[derive(Debug, Clone, Copy, PartialEq, Eq, Hash, Structural)]
pub struct LevelHandle(pub usize);

/// The instances that make up one level.
#[derive(Debug, Clone)]
pub struct Level {
    pub name: String,
    pub mesh_instances: Vec<MeshInstance>,
    pub material_instances: Vec<MaterialInstance>,
}

/// Levels, and which of them is current.
#[derive(Debug)]
pub struct World {
    pub level_handle: LevelHandle,
    pub levels: Vec<Box<Level>>,
}

/// What the editor has selected in a scene, by index into its lists.
#[derive(Debug, Clone, Copy, PartialEq, Eq, Structural)]
pub enum SelectedObject {
    StaticMesh(usize),
    DynamicMesh(usize),
    PerspectiveCamera(usize),
}

/// The mesh instances and scripts of one scene. Instances own their render
/// data and are dropped with the scene.
#[derive(Debug)]
pub struct SceneNode {
    pub name: String,
    pub static_meshes: Vec<StaticMesh>,
    pub dynamic_meshes: Vec<DynamicMesh>,
    pub materials: Vec<Material>,
    pub scripts: Vec<String>,
}

impl SceneNode {
    pub fn new(name: String) -> (r: Self)
        ensures
            r.name == name,
            r.static_meshes@.len() == 0,
            r.dynamic_meshes@.len() == 0,
            r.materials@.len() == 0,
            r.scripts@.len() == 0,
    {
        SceneNode {
            name,
            static_meshes: Vec::new(),
            dynamic_meshes: Vec::new(),
            materials: Vec::new(),
            scripts: Vec::new(),
        }
    }

    pub fn add_static_mesh(&mut self, mesh: StaticMesh)
        ensures
            final(self).static_meshes@ == old(self).static_meshes@.push(mesh),
            final(self).dynamic_meshes == old(self).dynamic_meshes,
            final(self).name == old(self).name,
            final(self).materials == old(self).materials,
            final(self).scripts == old(self).scripts,
    {
        self.static_meshes.push(mesh);
    }

    pub fn add_dynamic_mesh(&mut self, mesh: DynamicMesh)
        ensures
            final(self).dynamic_meshes@ == old(self).dynamic_meshes@.push(mesh),
            final(self).static_meshes == old(self).static_meshes,
            final(self).name == old(self).name,
            final(self).materials == old(self).materials,
            final(self).scripts == old(self).scripts,
    {
        self.dynamic_meshes.push(mesh);
    }
}

/// The scenes of the editor, and which of them is current.
#[derive(Debug)]
pub struct SceneGraph {
    pub current_scene: usize,
    pub scenes: Vec<Box<SceneNode>>,
}

impl SceneGraph {
    pub fn new() -> (r: Self)
        ensures
            r.current_scene == 0,
            r.scenes@.len() == 0,
    {
        SceneGraph { current_scene: 0, scenes: Vec::new() }
    }

    /// The current scene, for editing; `None` when the index is past the end.
    pub fn current_scene_mut(&mut self) -> (r: Option<&mut Box<SceneNode>>)
        ensures
            r is Some == (old(self).current_scene < old(self).scenes@.len()),
            r matches Some(s) ==> *s == old(self).scenes@[old(self).current_scene as int]
                && final(self).scenes@ == old(self).scenes@.update(old(self).current_scene as int, *final(s))
                && final(self).current_scene == old(self).current_scene,
            r is None ==> *final(self) == *old(self),
    {
        let i = self.current_scene;
        if i < self.scenes.len() {
            Some(&mut self.scenes[i])
        } else {
            None
        }
    }
}

} // verus!
