use vstd::prelude::*;
use std::collections::HashMap;
use crate::data::{CompiledShaderProgram, LoadedMaterial, LoadedMesh, LoadedTexture};
use crate::handles::{AssetHandle, MaterialHandle, MeshHandle, ShaderHandle, TextureHandle};
use crate::loader::Asset;

verus! {

broadcast use vstd::std_specs::hash::group_hash_axioms;

/// Why an asset could not be integrated.
#[derive(Debug, Clone, Copy, PartialEq, Eq, Structural)]
pub enum IntegrateError {
    /// The handle's kind differs from the asset's.
    KindMismatch,
}

/// Owns every decoded asset, keyed by the number of its handle, one table per
/// kind. Touched only from the main thread.
pub struct ResourceTables {
    textures: HashMap<usize, LoadedTexture>,
    meshes: HashMap<usize, LoadedMesh>,
    materials: HashMap<usize, LoadedMaterial>,
    shaders: HashMap<usize, CompiledShaderProgram>,
}

/// The four tables: textures, meshes, materials, shader programs.
pub type TablesView = (
    Map<usize, LoadedTexture>,
    Map<usize, LoadedMesh>,
    Map<usize, LoadedMaterial>,
    Map<usize, CompiledShaderProgram>,
);

/// Whether `handle` and `asset` are of the same kind.
pub open spec fn kinds_match(handle: AssetHandle, asset: Asset) -> bool {
    match (handle, asset) {
        (AssetHandle::Texture(_), Asset::Texture(_)) => true,
        (AssetHandle::Mesh(_), Asset::Mesh(_)) => true,
        (AssetHandle::Material(_), Asset::Material(_)) => true,
        (AssetHandle::Shader(_), Asset::Shader(_)) => true,
        _ => false,
    }
}

/// The tables with `asset` stored under `handle`; unchanged where the kinds
/// differ.
pub open spec fn with_asset(v: TablesView, handle: AssetHandle, asset: Asset) -> TablesView {
    match (handle, asset) {
        (AssetHandle::Texture(h), Asset::Texture(t)) => (v.0.insert(h.0, t), v.1, v.2, v.3),
        (AssetHandle::Mesh(h), Asset::Mesh(m)) => (v.0, v.1.insert(h.0, m), v.2, v.3),
        (AssetHandle::Material(h), Asset::Material(m)) => (v.0, v.1, v.2.insert(h.0, m), v.3),
        (AssetHandle::Shader(h), Asset::Shader(s)) => (v.0, v.1, v.2, v.3.insert(h.0, s)),
        _ => v,
    }
}

/// The tables with each pair of `items` stored in turn.
pub open spec fn with_assets(v: TablesView, items: Seq<(AssetHandle, Asset)>) -> TablesView
    decreases items.len(),
{
    if items.len() == 0 {
        v
    } else {
        with_asset(with_assets(v, items.drop_last()), items.last().0, items.last().1)
    }
}

/// How many pairs of `items` pair a handle with an asset of another kind.
pub open spec fn mismatches(items: Seq<(AssetHandle, Asset)>) -> nat
    decreases items.len(),
{
    if items.len() == 0 {
        0
    } else {
        mismatches(items.drop_last()) + if kinds_match(items.last().0, items.last().1) {
            0nat
        } else {
            1nat
        }
    }
}

impl View for ResourceTables {
    type V = TablesView;

    closed spec fn view(&self) -> TablesView {
        (self.textures@, self.meshes@, self.materials@, self.shaders@)
    }
}

impl ResourceTables {
    pub open spec fn textures(&self) -> Map<usize, LoadedTexture> {
        self@.0
    }

    pub open spec fn meshes(&self) -> Map<usize, LoadedMesh> {
        self@.1
    }

    pub open spec fn materials(&self) -> Map<usize, LoadedMaterial> {
        self@.2
    }

    pub open spec fn shaders(&self) -> Map<usize, CompiledShaderProgram> {
        self@.3
    }

    pub fn new() -> (r: Self)
        ensures
            r.textures() == Map::<usize, LoadedTexture>::empty(),
            r.meshes() == Map::<usize, LoadedMesh>::empty(),
            r.materials() == Map::<usize, LoadedMaterial>::empty(),
            r.shaders() == Map::<usize, CompiledShaderProgram>::empty(),
    {
        ResourceTables {
            textures: HashMap::new(),
            meshes: HashMap::new(),
            materials: HashMap::new(),
            shaders: HashMap::new(),
        }
    }

    /// Stores `asset` under `handle` in the table of its kind, replacing what
    /// was there. The other tables are left as they were; so is everything
    /// when the handle's kind differs from the asset's.
    pub fn integrate(&mut self, handle: AssetHandle, asset: Asset) -> (r: Result<(), IntegrateError>)
        ensures
            r.is_ok() == kinds_match(handle, asset),
            final(self)@ == with_asset(old(self)@, handle, asset),
    {
        match (handle, asset) {
            (AssetHandle::Texture(h), Asset::Texture(t)) => {
                self.textures.insert(h.0, t);
                Ok(())
            },
            (AssetHandle::Mesh(h), Asset::Mesh(m)) => {
                self.meshes.insert(h.0, m);
                Ok(())
            },
            (AssetHandle::Material(h), Asset::Material(m)) => {
                self.materials.insert(h.0, m);
                Ok(())
            },
            (AssetHandle::Shader(h), Asset::Shader(s)) => {
                self.shaders.insert(h.0, s);
                Ok(())
            },
            _ => Err(IntegrateError::KindMismatch),
        }
    }

    /// Integrates every pair drained from the loader, in order; a pair whose
    /// handle and asset differ in kind is left out and counted.
    pub fn integrate_all(&mut self, loaded: Vec<(AssetHandle, Asset)>) -> (r: usize)
        ensures
            final(self)@ == with_assets(old(self)@, loaded@),
            r == mismatches(loaded@),
    {
        let ghost items = loaded@;
        assert(items.len() <= usize::MAX) by {
            assert(loaded.len() == items.len());
        }
        let mut rest = loaded;
        let mut refused: usize = 0;
        let mut k: usize = 0;
        while rest.len() > 0
            invariant
                k + rest@.len() == items.len(),
                items.len() <= usize::MAX,
                rest@ == items.subrange(k as int, items.len() as int),
                self@ == with_assets(old(self)@, items.subrange(0, k as int)),
                refused == mismatches(items.subrange(0, k as int)),
                refused <= k,
            decreases rest@.len(),
        {
            let (handle, asset) = rest.remove(0);
            proof {
                assert(items.subrange(0, k + 1).drop_last() =~= items.subrange(0, k as int));
            }
            if self.integrate(handle, asset).is_err() {
                refused = refused + 1;
            }
            k = k + 1;
            assert(rest@ =~= items.subrange(k as int, items.len() as int));
        }
        assert(items.subrange(0, k as int) =~= items);
        refused
    }

    /// The texture stored under `handle`, if one was integrated.
    pub fn get_texture(&self, handle: TextureHandle) -> (r: Option<&LoadedTexture>)
        ensures
            r.is_some() == self.textures().contains_key(handle.0),
            r matches Some(t) ==> *t == self.textures()[handle.0],
    {
        self.textures.get(&handle.0)
    }

    /// The mesh stored under `handle`, if one was integrated.
    pub fn get_mesh(&self, handle: MeshHandle) -> (r: Option<&LoadedMesh>)
        ensures
            r.is_some() == self.meshes().contains_key(handle.0),
            r matches Some(m) ==> *m == self.meshes()[handle.0],
    {
        self.meshes.get(&handle.0)
    }

    /// The material stored under `handle`, if one was integrated.
    pub fn get_material(&self, handle: MaterialHandle) -> (r: Option<&LoadedMaterial>)
        ensures
            r.is_some() == self.materials().contains_key(handle.0),
            r matches Some(m) ==> *m == self.materials()[handle.0],
    {
        self.materials.get(&handle.0)
    }

    /// The shader program stored under `handle`, if one was integrated.
    pub fn get_shader(&self, handle: ShaderHandle) -> (r: Option<&CompiledShaderProgram>)
        ensures
            r.is_some() == self.shaders().contains_key(handle.0),
            r matches Some(s) ==> *s == self.shaders()[handle.0],
    {
        self.shaders.get(&handle.0)
    }
}

} // verus!
