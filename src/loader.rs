use vstd::prelude::*;
use crate::data::{CompiledShaderProgram, LoadedMaterial, LoadedMesh, LoadedTexture};
use crate::decode::{has_positions, is_slot, model_loadable, primitive_loadable};
use crate::handles::{handle_for, AssetHandle, AssetKind, HandleRegistry};
use crate::model::MeshError;
use crate::texture::TextureError;

verus! {

/// A request for the loader's worker: (path, display name).
#[derive(Debug)]
pub enum AssetRequest {
    LoadTexture((String, String)),
    LoadMesh((String, String)),
}

/// A decoded asset on its way to the resource tables.
#[derive(Debug)]
pub enum Asset {
    Texture(LoadedTexture),
    Mesh(LoadedMesh),
    Material(LoadedMaterial),
    Shader(CompiledShaderProgram),
}

impl Asset {
    pub fn into_texture(self) -> (r: Option<LoadedTexture>)
        ensures
            r == (match self {
                Asset::Texture(t) => Some(t),
                _ => None,
            }),
    {
        if let Asset::Texture(texture) = self {
            Some(texture)
        } else {
            None
        }
    }

    pub fn into_mesh(self) -> (r: Option<LoadedMesh>)
        ensures
            r == (match self {
                Asset::Mesh(m) => Some(m),
                _ => None,
            }),
    {
        if let Asset::Mesh(mesh) = self {
            Some(mesh)
        } else {
            None
        }
    }

    pub fn into_material(self) -> (r: Option<LoadedMaterial>)
        ensures
            r == (match self {
                Asset::Material(m) => Some(m),
                _ => None,
            }),
    {
        if let Asset::Material(material) = self {
            Some(material)
        } else {
            None
        }
    }

    pub fn into_shader(self) -> (r: Option<CompiledShaderProgram>)
        ensures
            r == (match self {
                Asset::Shader(s) => Some(s),
                _ => None,
            }),
    {
        if let Asset::Shader(shader) = self {
            Some(shader)
        } else {
            None
        }
    }
}

/// What the worker publishes for a finished texture decode, with the registry
/// at `next`: the texture under a fresh handle, or nothing on failure.
pub open spec fn published_texture(next: nat, decoded: Result<LoadedTexture, TextureError>) -> Option<(AssetHandle, Asset)> {
    match decoded {
        Ok(t) => Some((handle_for(AssetKind::Texture, next), Asset::Texture(t))),
        Err(_) => None,
    }
}

/// What the worker publishes for a finished mesh decode.
pub open spec fn published_mesh(next: nat, decoded: Result<LoadedMesh, MeshError>) -> Option<(AssetHandle, Asset)> {
    match decoded {
        Ok(m) => Some((handle_for(AssetKind::Mesh, next), Asset::Mesh(m))),
        Err(_) => None,
    }
}

/// Turns a finished texture decode into the pair to publish. A handle is
/// taken from the registry only for a texture that decoded.
pub fn publish_texture(registry: &mut HandleRegistry, decoded: Result<LoadedTexture, TextureError>) -> (r: Option<(AssetHandle, Asset)>)
    requires
        decoded.is_ok() ==> old(registry)@ < usize::MAX,
    ensures
        r == published_texture(old(registry)@, decoded),
        final(registry)@ == if decoded.is_ok() { old(registry)@ + 1 } else { old(registry)@ },
{
    match decoded {
        Ok(texture) => {
            let handle = registry.next_handle(AssetKind::Texture);
            Some((handle, Asset::Texture(texture)))
        },
        Err(_) => None,
    }
}

/// Turns a finished mesh decode into the pair to publish: one handle for the
/// whole mesh, none when it failed.
pub fn publish_mesh(registry: &mut HandleRegistry, decoded: Result<LoadedMesh, MeshError>) -> (r: Option<(AssetHandle, Asset)>)
    requires
        decoded.is_ok() ==> old(registry)@ < usize::MAX,
    ensures
        r == published_mesh(old(registry)@, decoded),
        final(registry)@ == if decoded.is_ok() { old(registry)@ + 1 } else { old(registry)@ },
{
    match decoded {
        Ok(mesh) => {
            let handle = registry.next_handle(AssetKind::Mesh);
            Some((handle, Asset::Mesh(mesh)))
        },
        Err(_) => None,
    }
}

/// Publishing each decode of `outcomes` in turn from a registry at `start`:
/// the pairs published, and the registry afterwards.
pub open spec fn texture_run(start: nat, outcomes: Seq<Result<LoadedTexture, TextureError>>) -> (Seq<(AssetHandle, Asset)>, nat)
    decreases outcomes.len(),
{
    if outcomes.len() == 0 {
        (Seq::empty(), start)
    } else {
        let (prev, next) = texture_run(start, outcomes.drop_last());
        match published_texture(next, outcomes.last()) {
            Some(p) => (prev.push(p), next + 1),
            None => (prev, next),
        }
    }
}

/// The textures among `outcomes` that decoded, in order.
pub open spec fn decoded_textures(outcomes: Seq<Result<LoadedTexture, TextureError>>) -> Seq<LoadedTexture>
    decreases outcomes.len(),
{
    if outcomes.len() == 0 {
        Seq::empty()
    } else {
        let prev = decoded_textures(outcomes.drop_last());
        match outcomes.last() {
            Ok(t) => prev.push(t),
            Err(_) => prev,
        }
    }
}

/// Publishing a run of texture decodes yields exactly one (handle, texture)
/// pair per texture that decoded, in order and none for a failure; the
/// handles are texture handles numbered on from the registry's state, so no
/// two are equal, and the registry advances once per pair.
pub proof fn lemma_texture_run_publishes_each_once(start: nat, outcomes: Seq<Result<LoadedTexture, TextureError>>)
    requires
        start + outcomes.len() <= usize::MAX,
    ensures
        texture_run(start, outcomes).0.len() == decoded_textures(outcomes).len(),
        decoded_textures(outcomes).len() <= outcomes.len(),
        texture_run(start, outcomes).1 == start + decoded_textures(outcomes).len(),
        forall|k: int|
            0 <= k < texture_run(start, outcomes).0.len() ==> #[trigger] texture_run(start, outcomes).0[k]
                == (handle_for(AssetKind::Texture, start + k as nat), Asset::Texture(decoded_textures(outcomes)[k])),
        forall|i: int, j: int|
            0 <= i < j < texture_run(start, outcomes).0.len() ==> texture_run(start, outcomes).0[i].0
                != texture_run(start, outcomes).0[j].0,
    decreases outcomes.len(),
{
    let run = texture_run(start, outcomes).0;
    let oks = decoded_textures(outcomes);
    if outcomes.len() > 0 {
        let rest = outcomes.drop_last();
        lemma_texture_run_publishes_each_once(start, rest);
        let (prev, next) = texture_run(start, rest);
        let prev_oks = decoded_textures(rest);
        match outcomes.last() {
            Ok(t) => {
                assert(run == prev.push((handle_for(AssetKind::Texture, next), Asset::Texture(t))));
                assert(oks == prev_oks.push(t));
                assert forall|k: int| 0 <= k < run.len() implies #[trigger] run[k] == (
                    handle_for(AssetKind::Texture, start + k as nat),
                    Asset::Texture(oks[k]),
                ) by {
                    if k < prev.len() {
                        assert(run[k] == prev[k]);
                        assert(oks[k] == prev_oks[k]);
                    }
                }
            },
            Err(_) => {
                assert(run == prev);
                assert(oks == prev_oks);
            },
        }
    }
    assert forall|i: int, j: int| 0 <= i < j < run.len() implies run[i].0 != run[j].0 by {
        assert(run[i] == (handle_for(AssetKind::Texture, start + i as nat), Asset::Texture(oks[i])));
        assert(run[j] == (handle_for(AssetKind::Texture, start + j as nat), Asset::Texture(oks[j])));
        assert(run[i].0.id() == start + i);
        assert(run[j].0.id() == start + j);
    }
}

/// A model with a primitive that has no position stream (or an empty one)
/// does not decode, and then the worker publishes nothing and the registry's
/// counter, which `publish_mesh` advances only for a decoded mesh, stays at
/// `next`.
pub proof fn lemma_missing_positions_publishes_nothing(
    src: Seq<u8>,
    bufs: Seq<Seq<u8>>,
    mesh: nat,
    prim: nat,
    decoded: Result<LoadedMesh, MeshError>,
    next: nat,
)
    requires
        is_slot(src, mesh as int, prim as int),
        !has_positions(src, bufs, mesh, prim),
        decoded.is_ok() == model_loadable(src, bufs),
    ensures
        !model_loadable(src, bufs),
        decoded.is_err(),
        published_mesh(next, decoded) is None,
        (if decoded.is_ok() { next + 1 } else { next }) == next,
{
    assert(!primitive_loadable(src, bufs, mesh, prim));
}

} // verus!
