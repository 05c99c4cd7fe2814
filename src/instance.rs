use vstd::prelude::*;
use crate::data::{LoadedMesh, LoadedPrimitive, VertexData};
use crate::handles::MeshHandle;
use crate::interleave::{interleave_vertex_data, interleaved, InterleaveError};
use crate::layout::{
    attribute_count_fits, calculate_stride, derived_layouts, determine_layouts, stride_of, Layout,
    StrideError,
};
use crate::tables::ResourceTables;

verus! {

/// Bit pattern of the float 1.0.
pub const ONE: u32 = 0x3f80_0000;

/// Why an instance could not be built.
#[derive(Debug, Clone, Copy, PartialEq, Eq, Structural)]
pub enum InstanceError {
    /// No mesh is stored under the handle.
    MeshNotFound,
    /// A primitive has more attribute sets than slot numbers can address.
    TooManyAttributeSets { primitive: usize },
    /// A primitive's stride could not be computed.
    Stride { primitive: usize, error: StrideError },
    /// A primitive's streams could not be interleaved.
    Interleave { primitive: usize, reason: InterleaveError },
}

/// What the graphics backend needs to upload one primitive: the interleaved
/// vertices, the indices (empty for a non-indexed primitive), the stride in
/// bytes and the attribute layouts.
#[derive(Debug, Clone)]
pub struct RenderData {
    pub vertices: Vec<u32>,
    pub indices: Vec<u32>,
    pub stride: i32,
    pub layouts: Vec<Layout>,
    pub vertex_count: usize,
    pub index_count: usize,
}

/// The render data of one primitive of a mesh instance.
#[derive(Debug, Clone)]
pub struct PrimitiveInstance {
    /// Index into the loaded mesh's primitives.
    pub primitive_index: usize,
    pub render_data: Option<RenderData>,
}

/// A primitive of a static mesh instance.
pub type StaticPrimitiveInstance = PrimitiveInstance;

/// A primitive of a dynamic mesh instance.
pub type DynamicPrimitiveInstance = PrimitiveInstance;

/// `rd` is the render data of primitive `p`.
pub open spec fn render_data_of(rd: RenderData, p: LoadedPrimitive) -> bool {
    let vd = *p.vertex_data;
    &&& rd.layouts@ == derived_layouts(vd)
    &&& stride_of(rd.layouts@) == Ok::<i32, StrideError>(rd.stride)
    &&& rd.vertices@ == interleaved(vd)
    &&& rd.indices@ == (match p.indices {
        Some(ix) => ix@,
        None => Seq::empty(),
    })
    &&& rd.vertex_count == vd.vertex_count()
    &&& rd.index_count == rd.indices@.len()
}

/// Whether the render data of primitive `p` can be built.
pub open spec fn primitive_buildable(p: LoadedPrimitive) -> bool {
    let vd = *p.vertex_data;
    &&& attribute_count_fits(vd)
    &&& stride_of(derived_layouts(vd)) is Ok
    &&& !vd.has_skinning()
    &&& vd.streams_consistent()
}

/// Every primitive of `mesh` can be rendered.
pub open spec fn mesh_buildable(mesh: LoadedMesh) -> bool {
    forall|i: int| 0 <= i < mesh.primitives@.len() ==> primitive_buildable(#[trigger] mesh.primitives@[i])
}

/// The first primitive of `mesh` that cannot be rendered, fails with `e`.
pub open spec fn first_failure(mesh: LoadedMesh, e: InstanceError) -> bool {
    exists|i: int|
        0 <= i < mesh.primitives@.len() && !primitive_buildable(#[trigger] mesh.primitives@[i])
            && (forall|j: int| 0 <= j < i ==> primitive_buildable(#[trigger] mesh.primitives@[j]))
            && match e {
            InstanceError::TooManyAttributeSets { primitive } => primitive == i && !attribute_count_fits(
                *mesh.primitives@[i].vertex_data,
            ),
            InstanceError::Stride { primitive, error } => primitive == i && attribute_count_fits(
                *mesh.primitives@[i].vertex_data,
            ) && stride_of(derived_layouts(*mesh.primitives@[i].vertex_data)) == Err::<
                i32,
                StrideError,
            >(error),
            InstanceError::Interleave { primitive, reason } => primitive == i
                && attribute_count_fits(*mesh.primitives@[i].vertex_data) && stride_of(
                derived_layouts(*mesh.primitives@[i].vertex_data),
            ) is Ok && (if mesh.primitives@[i].vertex_data.has_skinning() {
                reason == InterleaveError::SkinningUnsupported
            } else {
                reason == InterleaveError::StreamLengthMismatch
            }),
            InstanceError::MeshNotFound => false,
        }
}

/// Derives layouts and stride, interleaves the vertices and takes the indices
/// of primitive `p`, which stands at `index` in its mesh.
fn build_render_data(p: &LoadedPrimitive, index: usize) -> (r: Result<RenderData, InstanceError>)
    ensures
        r.is_ok() == primitive_buildable(*p),
        r matches Ok(rd) ==> render_data_of(rd, *p),
        r matches Err(e) ==> match e {
            InstanceError::TooManyAttributeSets { primitive } => primitive == index && !attribute_count_fits(
                *p.vertex_data,
            ),
            InstanceError::Stride { primitive, error } => primitive == index && attribute_count_fits(
                *p.vertex_data,
            ) && stride_of(derived_layouts(*p.vertex_data)) == Err::<i32, StrideError>(error),
            InstanceError::Interleave { primitive, reason } => primitive == index && attribute_count_fits(
                *p.vertex_data,
            ) && stride_of(derived_layouts(*p.vertex_data)) is Ok && (if p.vertex_data.has_skinning() {
                reason == InterleaveError::SkinningUnsupported
            } else {
                reason == InterleaveError::StreamLengthMismatch
            }),
            InstanceError::MeshNotFound => false,
        },
{
    let vd: &VertexData = &p.vertex_data;
    let t = vd.texcoords.len();
    let c = vd.colors.len();
    let limit: usize = (u32::MAX - 5) as usize;
    if t > limit || c > limit - t || t + c > usize::MAX / 16 - 5 {
        return Err(InstanceError::TooManyAttributeSets { primitive: index });
    }
    assert(16 * (t + c + 5) <= usize::MAX) by (nonlinear_arith)
        requires
            t + c <= usize::MAX / 16 - 5,
    ;
    let layouts = determine_layouts(vd);
    let stride = match calculate_stride(layouts.as_slice()) {
        Ok(s) => s,
        Err(error) => return Err(InstanceError::Stride { primitive: index, error }),
    };
    let vertices = match interleave_vertex_data(vd) {
        Ok(v) => v,
        Err(reason) => return Err(InstanceError::Interleave { primitive: index, reason }),
    };
    let indices: Vec<u32> = match &p.indices {
        Some(ix) => ix.clone(),
        None => Vec::new(),
    };
    let index_count = indices.len();
    Ok(RenderData { vertices, indices, stride, layouts, vertex_count: vd.positions.len(), index_count })
}

/// `instances` holds one instance per primitive of `mesh`, in order, each
/// tagged with its primitive's index and carrying its render data.
pub open spec fn instances_match(instances: Seq<PrimitiveInstance>, mesh: LoadedMesh) -> bool {
    &&& instances.len() == mesh.primitives@.len()
    &&& forall|i: int|
        0 <= i < instances.len() ==> (#[trigger] instances[i]).primitive_index == i
            && (instances[i].render_data matches Some(rd) && render_data_of(rd, mesh.primitives@[i]))
}

/// Builds the instance of every primitive of `mesh`, in order; fails on the
/// first primitive that cannot be rendered.
fn build_instances(mesh: &LoadedMesh) -> (r: Result<Vec<PrimitiveInstance>, InstanceError>)
    ensures
        r.is_ok() == mesh_buildable(*mesh),
        r matches Ok(v) ==> instances_match(v@, *mesh),
        r matches Err(e) ==> first_failure(*mesh, e),
{
    let mut out: Vec<PrimitiveInstance> = Vec::new();
    let mut i: usize = 0;
    while i < mesh.primitives.len()
        invariant
            i <= mesh.primitives@.len(),
            out@.len() == i,
            forall|j: int|
                0 <= j < i ==> (#[trigger] out@[j]).primitive_index == j && (out@[j].render_data matches Some(rd)
                    && render_data_of(rd, mesh.primitives@[j])),
            forall|j: int| 0 <= j < i ==> primitive_buildable(#[trigger] mesh.primitives@[j]),
        decreases mesh.primitives@.len() - i,
    {
        match build_render_data(&mesh.primitives[i], i) {
            Ok(rd) => out.push(PrimitiveInstance { primitive_index: i, render_data: Some(rd) }),
            Err(e) => {
                assert(!primitive_buildable(mesh.primitives@[i as int]));
                return Err(e);
            },
        }
        i += 1;
    }
    Ok(out)
}

/// A placed, never-changing instance of a loaded mesh. It refers to the mesh
/// by handle; the resource tables own the mesh. Translation, Euler rotation
/// and scale are float bit patterns.
#[derive(Debug, Clone)]
pub struct StaticMesh {
    pub name: String,
    pub handle: MeshHandle,
    pub primitives: Vec<StaticPrimitiveInstance>,
    pub translation: [u32; 3],
    pub rotation: [u32; 3],
    pub scale: [u32; 3],
}

/// A placed instance of a loaded mesh whose vertices may be rewritten.
#[derive(Debug, Clone)]
pub struct DynamicMesh {
    pub name: String,
    pub handle: MeshHandle,
    pub primitives: Vec<DynamicPrimitiveInstance>,
    pub translation: [u32; 3],
    pub rotation: [u32; 3],
    pub scale: [u32; 3],
}

/// Zero translation and rotation, unit scale.
pub open spec fn identity_transform(translation: [u32; 3], rotation: [u32; 3], scale: [u32; 3]) -> bool {
    translation@ == seq![0u32, 0, 0] && rotation@ == seq![0u32, 0, 0] && scale@ == seq![ONE, ONE, ONE]
}

/// Whether instancing the mesh under `handle` succeeds.
pub open spec fn instantiable(tables: ResourceTables, handle: MeshHandle) -> bool {
    tables.meshes().contains_key(handle.0) && mesh_buildable(tables.meshes()[handle.0])
}

/// How instancing the mesh under `handle` fails with `e`.
pub open spec fn instance_failure(tables: ResourceTables, handle: MeshHandle, e: InstanceError) -> bool {
    if tables.meshes().contains_key(handle.0) {
        first_failure(tables.meshes()[handle.0], e)
    } else {
        e == InstanceError::MeshNotFound
    }
}

fn identity() -> (r: ([u32; 3], [u32; 3], [u32; 3]))
    ensures
        identity_transform(r.0, r.1, r.2),
{
    let t: [u32; 3] = [0, 0, 0];
    let s: [u32; 3] = [ONE, ONE, ONE];
    assert(t@ =~= seq![0u32, 0, 0]);
    assert(s@ =~= seq![ONE, ONE, ONE]);
    (t, t, s)
}

impl StaticMesh {
    /// Instances the mesh stored under `handle`: one primitive instance per
    /// primitive of the mesh, each with its render data, at the identity
    /// transform.
    pub fn new(name: String, handle: MeshHandle, tables: &ResourceTables) -> (r: Result<StaticMesh, InstanceError>)
        ensures
            r.is_ok() == instantiable(*tables, handle),
            r matches Ok(m) ==> m.name == name && m.handle == handle && instances_match(
                m.primitives@,
                tables.meshes()[handle.0],
            ) && identity_transform(m.translation, m.rotation, m.scale),
            r matches Err(e) ==> instance_failure(*tables, handle, e),
    {
        let mesh = match tables.get_mesh(handle) {
            Some(m) => m,
            None => return Err(InstanceError::MeshNotFound),
        };
        let primitives = match build_instances(mesh) {
            Ok(p) => p,
            Err(e) => return Err(e),
        };
        let (translation, rotation, scale) = identity();
        Ok(StaticMesh { name, handle, primitives, translation, rotation, scale })
    }
}

impl DynamicMesh {
    /// Instances the mesh stored under `handle`, as `StaticMesh::new` does.
    pub fn new(name: String, handle: MeshHandle, tables: &ResourceTables) -> (r: Result<DynamicMesh, InstanceError>)
        ensures
            r.is_ok() == instantiable(*tables, handle),
            r matches Ok(m) ==> m.name == name && m.handle == handle && instances_match(
                m.primitives@,
                tables.meshes()[handle.0],
            ) && identity_transform(m.translation, m.rotation, m.scale),
            r matches Err(e) ==> instance_failure(*tables, handle, e),
    {
        let mesh = match tables.get_mesh(handle) {
            Some(m) => m,
            None => return Err(InstanceError::MeshNotFound),
        };
        let primitives = match build_instances(mesh) {
            Ok(p) => p,
            Err(e) => return Err(e),
        };
        let (translation, rotation, scale) = identity();
        Ok(DynamicMesh { name, handle, primitives, translation, rotation, scale })
    }
}

} // verus!
