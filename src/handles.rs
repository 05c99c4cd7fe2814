use vstd::prelude::*;

verus! {

/// Lookup key of a decoded texture.
#[derive(Debug, Clone, Copy, PartialEq, Eq, Hash, Structural)]
pub struct TextureHandle(pub usize);

/// Lookup key of a decoded mesh.
#[derive(Debug, Clone, Copy, PartialEq, Eq, Hash, Structural)]
pub struct MeshHandle(pub usize);

/// Lookup key of a decoded material.
#[derive(Debug, Clone, Copy, PartialEq, Eq, Hash, Structural)]
pub struct MaterialHandle(pub usize);

/// Lookup key of a compiled shader program.
#[derive(Debug, Clone, Copy, PartialEq, Eq, Hash, Structural)]
pub struct ShaderHandle(pub usize);

/// A handle of any asset kind.
#[derive(Debug, Clone, Copy, PartialEq, Eq, Hash, Structural)]
pub enum AssetHandle {
    Texture(TextureHandle),
    Mesh(MeshHandle),
    Material(MaterialHandle),
    Shader(ShaderHandle),
}

/// The kinds of asset a handle can refer to.
#[derive(Debug, Clone, Copy, PartialEq, Eq, Hash, Structural)]
pub enum AssetKind {
    Texture,
    Mesh,
    Material,
    Shader,
}

impl AssetHandle {
    /// The number wrapped by the handle.
    pub open spec fn id(self) -> nat {
        match self {
            AssetHandle::Texture(h) => h.0 as nat,
            AssetHandle::Mesh(h) => h.0 as nat,
            AssetHandle::Material(h) => h.0 as nat,
            AssetHandle::Shader(h) => h.0 as nat,
        }
    }

    /// The kind of asset the handle refers to.
    pub open spec fn kind(self) -> AssetKind {
        match self {
            AssetHandle::Texture(_) => AssetKind::Texture,
            AssetHandle::Mesh(_) => AssetKind::Mesh,
            AssetHandle::Material(_) => AssetKind::Material,
            AssetHandle::Shader(_) => AssetKind::Shader,
        }
    }

    pub fn as_mesh_handle(&self) -> (r: Option<MeshHandle>)
        ensures
            r == (match *self {
                AssetHandle::Mesh(h) => Some(h),
                _ => None,
            }),
    {
        if let AssetHandle::Mesh(handle) = *self {
            Some(handle)
        } else {
            None
        }
    }

    pub fn as_texture_handle(&self) -> (r: Option<TextureHandle>)
        ensures
            r == (match *self {
                AssetHandle::Texture(h) => Some(h),
                _ => None,
            }),
    {
        if let AssetHandle::Texture(handle) = *self {
            Some(handle)
        } else {
            None
        }
    }

    pub fn as_material_handle(&self) -> (r: Option<MaterialHandle>)
        ensures
            r == (match *self {
                AssetHandle::Material(h) => Some(h),
                _ => None,
            }),
    {
        if let AssetHandle::Material(handle) = *self {
            Some(handle)
        } else {
            None
        }
    }

    pub fn as_shader_handle(&self) -> (r: Option<ShaderHandle>)
        ensures
            r == (match *self {
                AssetHandle::Shader(h) => Some(h),
                _ => None,
            }),
    {
        if let AssetHandle::Shader(handle) = *self {
            Some(handle)
        } else {
            None
        }
    }
}

/// The handle of the given kind that wraps `id`.
pub open spec fn handle_for(kind: AssetKind, id: nat) -> AssetHandle {
    match kind {
        AssetKind::Texture => AssetHandle::Texture(TextureHandle(id as usize)),
        AssetKind::Mesh => AssetHandle::Mesh(MeshHandle(id as usize)),
        AssetKind::Material => AssetHandle::Material(MaterialHandle(id as usize)),
        AssetKind::Shader => AssetHandle::Shader(ShaderHandle(id as usize)),
    }
}

/// Issues handles from one counter shared by all asset kinds, so a handle is
/// unique across kinds as well as within one. Its view is the next number it
/// will hand out; every number below it has been handed out exactly once.
pub struct HandleRegistry {
    next_id: usize,
}

impl View for HandleRegistry {
    type V = nat;

    closed spec fn view(&self) -> nat {
        self.next_id as nat
    }
}

impl HandleRegistry {
    pub fn new() -> (r: HandleRegistry)
        ensures
            r@ == 0,
    {
        HandleRegistry { next_id: 0 }
    }

    /// Whether another handle can be issued without the counter overflowing.
    pub fn can_issue(&self) -> (r: bool)
        ensures
            r == (self@ < usize::MAX),
    {
        self.next_id < usize::MAX
    }

    /// Hands out the next number, wrapped as a handle of `kind`.
    pub fn next_handle(&mut self, kind: AssetKind) -> (r: AssetHandle)
        requires
            old(self)@ < usize::MAX,
        ensures
            r == handle_for(kind, old(self)@),
            r.id() == old(self)@,
            r.kind() == kind,
            final(self)@ == old(self)@ + 1,
    {
        let id = self.next_id;
        self.next_id = id + 1;
        match kind {
            AssetKind::Texture => AssetHandle::Texture(TextureHandle(id)),
            AssetKind::Mesh => AssetHandle::Mesh(MeshHandle(id)),
            AssetKind::Material => AssetHandle::Material(MaterialHandle(id)),
            AssetKind::Shader => AssetHandle::Shader(ShaderHandle(id)),
        }
    }
}

/// The handles that a registry whose view is `start` hands out for a run of
/// requests of the given kinds, in order.
pub open spec fn issued_run(start: nat, kinds: Seq<AssetKind>) -> Seq<AssetHandle> {
    Seq::new(kinds.len(), |i: int| handle_for(kinds[i], start + i as nat))
}

/// Any run of issues from one registry, whatever the mix of kinds and however
/// the issuers interleave, yields pairwise distinct handles whose numbers are
/// also pairwise distinct and never below the registry's state at the start.
pub proof fn lemma_issued_handles_distinct(start: nat, kinds: Seq<AssetKind>)
    requires
        start + kinds.len() <= usize::MAX,
    ensures
        forall|i: int, j: int|
            0 <= i < j < kinds.len() ==> issued_run(start, kinds)[i] != issued_run(start, kinds)[j]
                && issued_run(start, kinds)[i].id() != issued_run(start, kinds)[j].id(),
        forall|i: int| 0 <= i < kinds.len() ==> issued_run(start, kinds)[i].id() >= start,
{
    assert forall|i: int| 0 <= i < kinds.len() implies #[trigger] issued_run(start, kinds)[i].id()
        == start + i by {}
    assert forall|i: int, j: int| 0 <= i < j < kinds.len() implies issued_run(start, kinds)[i]
        != issued_run(start, kinds)[j] && issued_run(start, kinds)[i].id() != issued_run(
        start,
        kinds,
    )[j].id() by {
        assert(issued_run(start, kinds)[i].id() == start + i);
        assert(issued_run(start, kinds)[j].id() == start + j);
    }
}

} // verus!
