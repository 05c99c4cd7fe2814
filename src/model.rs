use vstd::prelude::*;
use gltf::image::Source as ImageSource;
use gltf::mesh::util::ReadColors;
use gltf::mesh::Semantic;
use gltf::mesh::Semantic::{Colors, Joints, Normals, Positions, Tangents, TexCoords, Weights};
use gltf::json::validation::Checked;
use gltf::Texture;
use crate::layout::{FLOAT, UNSIGNED_BYTE, UNSIGNED_INT, UNSIGNED_SHORT};

verus! {

#[verifier::external_type_specification]
#[verifier::external_body]
pub struct ExGltf(gltf::Gltf);

#[verifier::external_type_specification]
#[verifier::external_body]
pub struct ExGltfError(gltf::Error);

/// A color stream as the model file stores it.
#[derive(Debug, Clone)]
pub enum ColorRead {
    /// 8-bit or float RGB, normalized to floats.
    Rgb(Vec<[u32; 3]>),
    /// 8-bit or float RGBA, normalized to floats.
    Rgba(Vec<[u32; 4]>),
    /// 16-bit channels, which the library does not read yet.
    Wide,
}

/// Where a material's image lives.
#[derive(Debug, Clone)]
pub enum ImageRef {
    /// A file, by the URI written in the model.
    Uri(String),
    /// Encoded inside one of the model's buffers.
    Embedded,
}

/// The texture slots of a material as the model file references them, in
/// this order: base color, metallic-roughness, normal, occlusion, emissive.
pub type MaterialTextures = [Option<ImageRef>; 5];

/// The scalar parameters of a material (floats as bit patterns).
#[derive(Debug, Clone, Copy)]
pub struct MaterialFactors {
    pub base_color: [u32; 4],
    pub metallic: u32,
    pub roughness: u32,
    pub alpha_blend: bool,
    pub double_sided: bool,
}

/// A vertex or index stream of a primitive.
#[derive(Debug, Clone, Copy, PartialEq, Eq, Structural)]
pub enum Attribute {
    Positions,
    Normals,
    Tangents,
    TexCoords(u32),
    Colors(u32),
    Joints(u32),
    Weights(u32),
    Indices,
}

/// Shape codes of accessors, as gltf numbers its element types (scalar 1,
/// then vectors of 2, 3 and 4, then matrices).
pub const SCALAR: u32 = 1;
pub const VEC2: u32 = 2;
pub const VEC3: u32 = 3;
pub const VEC4: u32 = 4;

/// Bytes of one component of the given type code.
pub open spec fn component_bytes(component: u32) -> int {
    if component == UNSIGNED_BYTE {
        1
    } else if component == UNSIGNED_SHORT {
        2
    } else {
        4
    }
}

/// Whether the component type and shape are those the reader of `attr` takes.
pub open spec fn element_allowed(attr: Attribute, t: u32, shape: u32) -> bool {
    let small = t == UNSIGNED_BYTE || t == UNSIGNED_SHORT;
    match attr {
        Attribute::Positions | Attribute::Normals => t == FLOAT && shape == VEC3,
        Attribute::Tangents => t == FLOAT && shape == VEC4,
        Attribute::TexCoords(_) => (small || t == FLOAT) && shape == VEC2,
        Attribute::Colors(_) => (small || t == FLOAT) && (shape == VEC3 || shape == VEC4),
        Attribute::Joints(_) => small && shape == VEC4,
        Attribute::Weights(_) => (small || t == FLOAT) && shape == VEC4,
        Attribute::Indices => (small || t == UNSIGNED_INT) && shape == SCALAR,
    }
}

/// The element of a stream: component type code, shape code, number of
/// elements, and whether the accessor is sparse.
pub type StreamElement = (u32, u32, usize, bool);

/// Where a stream lies: the accessor's byte offset within its view, and the
/// view's byte offset, byte length and stride (`None` when packed), if it has
/// a view.
pub type StreamSpan = (usize, Option<(usize, usize, Option<usize>)>);

/// Whether the primitive reader can read a stream of this element and span
/// for `attr` without panicking: an element type it takes, a dense accessor
/// of at least one element, a stride no smaller than an element, and byte
/// ranges that fit a `usize`. An absent stream is always readable.
pub open spec fn stream_readable(attr: Attribute, element: Option<StreamElement>, span: Option<StreamSpan>) -> bool {
    match element {
        None => true,
        Some((t, shape, count, sparse)) => {
            let elem = component_bytes(t) * shape;
            &&& element_allowed(attr, t, shape)
            &&& !sparse
            &&& count >= 1
            &&& match span {
                None => false,
                Some((offset, None)) => true,
                Some((offset, Some((view_offset, view_length, stride)))) => {
                    let s = match stride {
                        Some(s) => s as int,
                        None => elem,
                    };
                    &&& view_offset + view_length <= usize::MAX
                    &&& s >= elem
                    &&& offset + s * (count - 1) + elem <= usize::MAX
                },
            }
        },
    }
}

/// Whether stream `attr` of a primitive of the model can be read.
pub open spec fn readable_in(bytes: Seq<u8>, mesh: nat, prim: nat, attr: Attribute) -> bool {
    stream_readable(attr, model_stream_element(bytes, mesh, prim, attr), model_stream_span(bytes, mesh, prim, attr))
}

/// For each image of the model, in order: whether it has a URI, whether it
/// has a buffer view, and whether it has a MIME type.
pub uninterp spec fn model_image_facts(bytes: Seq<u8>) -> Vec<(bool, bool, bool)>;

/// Whether an image says where its data is: a buffer view together with a
/// MIME type, or else a URI.
pub open spec fn image_sourced(facts: (bool, bool, bool)) -> bool {
    if facts.1 {
        facts.2
    } else {
        facts.0
    }
}

/// Whether image `image` of the model exists and does not say where its data is.
pub open spec fn image_malformed(bytes: Seq<u8>, image: usize) -> bool {
    image < model_image_facts(bytes)@.len() && !image_sourced(model_image_facts(bytes)@[image as int])
}

/// Every image of the model says where its data is.
pub open spec fn images_well_formed(bytes: Seq<u8>) -> bool {
    forall|i: int|
        0 <= i < model_image_facts(bytes)@.len() ==> image_sourced(#[trigger] model_image_facts(bytes)@[i])
}

/// A binary container whose header declares a total length shorter than the
/// header itself; the container reader subtracts the header size from it.
pub open spec fn declares_short_container(bytes: Seq<u8>) -> bool {
    &&& bytes.len() >= 12
    &&& bytes[0] == 0x67 && bytes[1] == 0x6c && bytes[2] == 0x54 && bytes[3] == 0x46
    &&& bytes[8] < 12 && bytes[9] == 0 && bytes[10] == 0 && bytes[11] == 0
}

/// For a file that parses before validation: for each primitive of each mesh
/// in order, the accessor index its POSITION attribute names, and the number
/// of accessors.
pub uninterp spec fn unchecked_position_refs(bytes: Seq<u8>) -> Option<(Vec<Option<usize>>, usize)>;

/// Every POSITION attribute names an existing accessor, so validation does not
/// index past the accessor list.
pub open spec fn position_refs_in_range(bytes: Seq<u8>) -> bool {
    match unchecked_position_refs(bytes) {
        None => true,
        Some((refs, n)) => forall|i: int|
            0 <= i < refs@.len() ==> (#[trigger] refs@[i] matches Some(k) ==> k < n),
    }
}

/// Whether the model parser accepts `bytes` (JSON or binary container).
pub uninterp spec fn gltf_parses(bytes: Seq<u8>) -> bool;

/// The binary chunk of a parsed binary container, if it has one.
pub uninterp spec fn model_blob(bytes: Seq<u8>) -> Option<Vec<u8>>;

/// For each buffer of the model, in order: the URI it is read from, or `None`
/// where it is the binary chunk.
pub uninterp spec fn model_buffer_uris(bytes: Seq<u8>) -> Vec<Option<String>>;

/// For each mesh of the model, in order, its number of primitives.
pub uninterp spec fn model_primitive_counts(bytes: Seq<u8>) -> Vec<usize>;

/// The position stream of a primitive, read through the given buffers.
pub uninterp spec fn model_positions(bytes: Seq<u8>, buffers: Seq<Seq<u8>>, mesh: nat, prim: nat) -> Option<Vec<[u32; 3]>>;

/// The normal stream of a primitive.
pub uninterp spec fn model_normals(bytes: Seq<u8>, buffers: Seq<Seq<u8>>, mesh: nat, prim: nat) -> Option<Vec<[u32; 3]>>;

/// The tangent stream of a primitive.
pub uninterp spec fn model_tangents(bytes: Seq<u8>, buffers: Seq<Seq<u8>>, mesh: nat, prim: nat) -> Option<Vec<[u32; 4]>>;

/// Texcoord set `set` of a primitive, as floats.
pub uninterp spec fn model_tex_coords(bytes: Seq<u8>, buffers: Seq<Seq<u8>>, mesh: nat, prim: nat, set: nat) -> Option<Vec<[u32; 2]>>;

/// Color set `set` of a primitive.
pub uninterp spec fn model_colors(bytes: Seq<u8>, buffers: Seq<Seq<u8>>, mesh: nat, prim: nat, set: nat) -> Option<ColorRead>;

/// Joint set `set` of a primitive, as 16-bit indices.
pub uninterp spec fn model_joints(bytes: Seq<u8>, buffers: Seq<Seq<u8>>, mesh: nat, prim: nat, set: nat) -> Option<Vec<[u16; 4]>>;

/// Weight set `set` of a primitive, as floats.
pub uninterp spec fn model_weights(bytes: Seq<u8>, buffers: Seq<Seq<u8>>, mesh: nat, prim: nat, set: nat) -> Option<Vec<[u32; 4]>>;

/// The index stream of a primitive, as 32-bit indices.
pub uninterp spec fn model_indices(bytes: Seq<u8>, buffers: Seq<Seq<u8>>, mesh: nat, prim: nat) -> Option<Vec<u32>>;

/// The element of a primitive's stream, if it has one.
pub uninterp spec fn model_stream_element(bytes: Seq<u8>, mesh: nat, prim: nat, attr: Attribute) -> Option<StreamElement>;

/// The span of a primitive's stream, if it has one.
pub uninterp spec fn model_stream_span(bytes: Seq<u8>, mesh: nat, prim: nat, attr: Attribute) -> Option<StreamSpan>;

/// The texture slots of a primitive's material.
pub uninterp spec fn model_material_textures(bytes: Seq<u8>, mesh: nat, prim: nat) -> Option<MaterialTextures>;

/// The scalar parameters of a primitive's material.
pub uninterp spec fn model_material_factors(bytes: Seq<u8>, mesh: nat, prim: nat) -> Option<MaterialFactors>;

/// Relies on `gltf::Gltf::from_slice_without_validation` and the JSON root's
/// `meshes` and `accessors`, before any validation runs. The container reader
/// underflows on a header length below 12; `requires` leaves those out.
#[verifier::external_body]
fn position_refs(bytes: &[u8]) -> (r: Option<(Vec<Option<usize>>, usize)>)
    requires
        !declares_short_container(bytes@),
    ensures
        r == unchecked_position_refs(bytes@),
{
    let root = gltf::Gltf::from_slice_without_validation(bytes).ok()?.document.into_json();
    let refs = root.meshes.iter().flat_map(|m| m.primitives.iter()).map(|p| {
        p.attributes.get(&Checked::Valid(Semantic::Positions)).map(|i| i.value())
    }).collect();
    Some((refs, root.accessors.len()))
}

/// Relies on `gltf::Gltf::from_slice`: parses and validates a JSON document or
/// a binary container. Its validation indexes the accessor list with each
/// POSITION attribute, and its container reader underflows on a header
/// length below 12, so `requires` leaves out files where a POSITION is out of
/// range or the header is that short.
#[verifier::external_body]
fn gltf_from_slice(bytes: &[u8]) -> (r: Result<gltf::Gltf, gltf::Error>)
    requires
        !declares_short_container(bytes@),
        position_refs_in_range(bytes@),
    ensures
        r.is_ok() == gltf_parses(bytes@),
{
    gltf::Gltf::from_slice(bytes)
}

/// Relies on the `Display` of `gltf::Error`, for messages only.
#[verifier::external_body]
fn describe_gltf_error(e: &gltf::Error) -> String {
    e.to_string()
}

/// A parsed model file, together with the bytes it was parsed from.
pub struct ParsedModel {
    doc: gltf::Gltf,
    source: Ghost<Seq<u8>>,
}

/// Why a mesh could not be loaded.
#[derive(Debug, Clone, PartialEq, Eq)]
pub enum MeshError {
    /// The file is not a model the parser accepts; the parser's message.
    Parse(String),
    /// A buffer refers to the binary chunk, and there is none.
    BinaryChunkMissing { buffer: usize },
    /// A buffer's file could not be read.
    BufferUnreadable { buffer: usize },
    /// An image names neither a URI nor a buffer view with a MIME type.
    MalformedImage { image: usize },
    /// A primitive has no position stream, or an empty one.
    MissingPositions { mesh: usize, primitive: usize },
    /// A stream of a primitive does not have one element per position.
    StreamLengthMismatch { mesh: usize, primitive: usize },
    /// A primitive's stream has a layout the reader cannot read: an element
    /// type it does not take, a sparse or empty accessor, a stride smaller
    /// than an element, or byte ranges past `usize::MAX`.
    UnsupportedFormat { mesh: usize, primitive: usize, attribute: Attribute },
}

impl ParsedModel {
    /// The bytes the model was parsed from.
    pub closed spec fn source(&self) -> Seq<u8> {
        self.source@
    }

    /// Parses a model file's bytes. A binary container whose header declares
    /// a length shorter than the header, and a file whose POSITION attributes
    /// name accessors that do not exist, are refused before validation.
    pub fn parse(bytes: &[u8]) -> (r: Result<ParsedModel, MeshError>)
        ensures
            r.is_ok() == (!declares_short_container(bytes@) && position_refs_in_range(bytes@)
                && gltf_parses(bytes@)),
            r matches Ok(m) ==> m.source() == bytes@,
            r matches Err(e) ==> e matches MeshError::Parse(_),
    {
        if bytes.len() >= 12 && bytes[0] == 0x67 && bytes[1] == 0x6c && bytes[2] == 0x54
            && bytes[3] == 0x46 && bytes[8] < 12 && bytes[9] == 0 && bytes[10] == 0 && bytes[11] == 0 {
            return Err(MeshError::Parse(String::from_str("binary container shorter than its header")));
        }
        if let Some((refs, n)) = position_refs(bytes) {
            let mut i: usize = 0;
            while i < refs.len()
                invariant
                    unchecked_position_refs(bytes@) == Some((refs, n)),
                    i <= refs@.len(),
                    forall|j: int| 0 <= j < i ==> (#[trigger] refs@[j] matches Some(k) ==> k < n),
                decreases refs@.len() - i,
            {
                if let Some(k) = refs[i] {
                    if k >= n {
                        return Err(MeshError::Parse(String::from_str("a POSITION attribute names a missing accessor")));
                    }
                }
                i += 1;
            }
        }
        match gltf_from_slice(bytes) {
            Ok(doc) => Ok(ParsedModel { doc, source: Ghost(bytes@) }),
            Err(e) => Err(MeshError::Parse(describe_gltf_error(&e))),
        }
    }
}

/// Relies on the `blob` field of `gltf::Gltf`: the binary chunk of a binary
/// container.
#[verifier::external_body]
pub(crate) fn binary_chunk(m: &ParsedModel) -> (r: Option<Vec<u8>>)
    ensures
        r == model_blob(m.source()),
{
    m.doc.blob.clone()
}

/// Relies on `gltf::Document::buffers` and `gltf::Buffer::source`.
#[verifier::external_body]
pub(crate) fn buffer_uris(m: &ParsedModel) -> (r: Vec<Option<String>>)
    ensures
        r == model_buffer_uris(m.source()),
{
    m.doc.buffers().map(|b| match b.source() {
        gltf::buffer::Source::Uri(uri) => Some(uri.to_string()),
        gltf::buffer::Source::Bin => None,
    }).collect()
}

/// Relies on `gltf::Document::meshes` and `gltf::Mesh::primitives`.
#[verifier::external_body]
pub(crate) fn primitive_counts(m: &ParsedModel) -> (r: Vec<usize>)
    ensures
        r == model_primitive_counts(m.source()),
{
    m.doc.meshes().map(|mesh| mesh.primitives().len()).collect()
}

/// Relies on gltf's `Primitive::get` and `Primitive::indices`, and on
/// `Accessor::data_type` (as its GL code), `dimensions` (as the discriminant
/// of gltf's element type), `count` and `sparse`.
#[verifier::external_body]
pub(crate) fn stream_element(m: &ParsedModel, mesh: usize, prim: usize, attr: Attribute) -> (r: Option<StreamElement>)
    ensures
        r == model_stream_element(m.source(), mesh as nat, prim as nat, attr),
{
    let p = m.doc.meshes().nth(mesh)?.primitives().nth(prim)?;
    let get = |s| p.get(&s);
    let a = match attr {
        Attribute::Positions => get(Positions),
        Attribute::Normals => get(Normals),
        Attribute::Tangents => get(Tangents),
        Attribute::TexCoords(set) => get(TexCoords(set)),
        Attribute::Colors(set) => get(Colors(set)),
        Attribute::Joints(set) => get(Joints(set)),
        Attribute::Weights(set) => get(Weights(set)),
        Attribute::Indices => p.indices(),
    }?;
    Some((a.data_type().as_gl_enum(), a.dimensions() as u32, a.count(), a.sparse().is_some()))
}

/// Relies on gltf's `Primitive::get` and `Primitive::indices`, and on
/// `Accessor::offset`, `Accessor::view` and the view's `offset`, `length` and
/// `stride`.
#[verifier::external_body]
pub(crate) fn stream_span(m: &ParsedModel, mesh: usize, prim: usize, attr: Attribute) -> (r: Option<StreamSpan>)
    ensures
        r == model_stream_span(m.source(), mesh as nat, prim as nat, attr),
{
    let p = m.doc.meshes().nth(mesh)?.primitives().nth(prim)?;
    let get = |s| p.get(&s);
    let a = match attr {
        Attribute::Positions => get(Positions),
        Attribute::Normals => get(Normals),
        Attribute::Tangents => get(Tangents),
        Attribute::TexCoords(set) => get(TexCoords(set)),
        Attribute::Colors(set) => get(Colors(set)),
        Attribute::Joints(set) => get(Joints(set)),
        Attribute::Weights(set) => get(Weights(set)),
        Attribute::Indices => p.indices(),
    }?;
    Some((a.offset(), a.view().map(|v| (v.offset(), v.length(), v.stride()))))
}

/// The reader panics on a stream layout it cannot read; `requires` leaves
/// those out.
#[verifier::external_body]
pub(crate) fn read_positions(m: &ParsedModel, buffers: &Vec<Vec<u8>>, mesh: usize, prim: usize) -> (r: Option<Vec<[u32; 3]>>)
    requires
        readable_in(m.source(), mesh as nat, prim as nat, Attribute::Positions),
    ensures
        r == model_positions(m.source(), buffers.deep_view(), mesh as nat, prim as nat),
{
    let p = m.doc.meshes().nth(mesh)?.primitives().nth(prim)?;
    let reader = p.reader(|b| buffers.get(b.index()).map(|v| v.as_slice()));
    reader.read_positions().map(|it| it.map(|v| v.map(|x| x.to_bits())).collect())
}

/// Relies on gltf's `Reader::read_normals`.
/// The reader panics on a stream layout it cannot read; `requires` leaves
/// those out.
#[verifier::external_body]
pub(crate) fn read_normals(m: &ParsedModel, buffers: &Vec<Vec<u8>>, mesh: usize, prim: usize) -> (r: Option<Vec<[u32; 3]>>)
    requires
        readable_in(m.source(), mesh as nat, prim as nat, Attribute::Normals),
    ensures
        r == model_normals(m.source(), buffers.deep_view(), mesh as nat, prim as nat),
{
    let p = m.doc.meshes().nth(mesh)?.primitives().nth(prim)?;
    let reader = p.reader(|b| buffers.get(b.index()).map(|v| v.as_slice()));
    reader.read_normals().map(|it| it.map(|v| v.map(|x| x.to_bits())).collect())
}

/// Relies on gltf's `Reader::read_tangents`.
/// The reader panics on a stream layout it cannot read; `requires` leaves
/// those out.
#[verifier::external_body]
pub(crate) fn read_tangents(m: &ParsedModel, buffers: &Vec<Vec<u8>>, mesh: usize, prim: usize) -> (r: Option<Vec<[u32; 4]>>)
    requires
        readable_in(m.source(), mesh as nat, prim as nat, Attribute::Tangents),
    ensures
        r == model_tangents(m.source(), buffers.deep_view(), mesh as nat, prim as nat),
{
    let p = m.doc.meshes().nth(mesh)?.primitives().nth(prim)?;
    let reader = p.reader(|b| buffers.get(b.index()).map(|v| v.as_slice()));
    reader.read_tangents().map(|it| it.map(|v| v.map(|x| x.to_bits())).collect())
}

/// Relies on gltf's `Reader::read_tex_coords` with its float conversion
/// (`ReadTexCoords::into_f32`).
/// The reader panics on a stream layout it cannot read; `requires` leaves
/// those out.
#[verifier::external_body]
pub(crate) fn read_tex_coords(m: &ParsedModel, buffers: &Vec<Vec<u8>>, mesh: usize, prim: usize, set: u32) -> (r: Option<Vec<[u32; 2]>>)
    requires
        readable_in(m.source(), mesh as nat, prim as nat, Attribute::TexCoords(set)),
    ensures
        r == model_tex_coords(m.source(), buffers.deep_view(), mesh as nat, prim as nat, set as nat),
{
    let p = m.doc.meshes().nth(mesh)?.primitives().nth(prim)?;
    let reader = p.reader(|b| buffers.get(b.index()).map(|v| v.as_slice()));
    reader.read_tex_coords(set).map(|it| it.into_f32().map(|v| v.map(|x| x.to_bits())).collect())
}

/// Relies on gltf's `Reader::read_colors`, and on `ReadColors::into_rgb_f32`
/// and `into_rgba_f32` to normalize 8-bit channels.
/// The reader panics on a stream layout it cannot read; `requires` leaves
/// those out.
#[verifier::external_body]
pub(crate) fn read_colors(m: &ParsedModel, buffers: &Vec<Vec<u8>>, mesh: usize, prim: usize, set: u32) -> (r: Option<ColorRead>)
    requires
        readable_in(m.source(), mesh as nat, prim as nat, Attribute::Colors(set)),
    ensures
        r == model_colors(m.source(), buffers.deep_view(), mesh as nat, prim as nat, set as nat),
{
    let p = m.doc.meshes().nth(mesh)?.primitives().nth(prim)?;
    let reader = p.reader(|b| buffers.get(b.index()).map(|v| v.as_slice()));
    Some(match reader.read_colors(set)? {
        ReadColors::RgbU16(_) | ReadColors::RgbaU16(_) => ColorRead::Wide,
        c @ (ReadColors::RgbU8(_) | ReadColors::RgbF32(_)) => ColorRead::Rgb(c.into_rgb_f32().map(|v| v.map(|x| x.to_bits())).collect()),
        c => ColorRead::Rgba(c.into_rgba_f32().map(|v| v.map(|x| x.to_bits())).collect()),
    })
}

/// Relies on gltf's `Reader::read_joints` with `ReadJoints::into_u16`.
/// The reader panics on a stream layout it cannot read; `requires` leaves
/// those out.
#[verifier::external_body]
pub(crate) fn read_joints(m: &ParsedModel, buffers: &Vec<Vec<u8>>, mesh: usize, prim: usize, set: u32) -> (r: Option<Vec<[u16; 4]>>)
    requires
        readable_in(m.source(), mesh as nat, prim as nat, Attribute::Joints(set)),
    ensures
        r == model_joints(m.source(), buffers.deep_view(), mesh as nat, prim as nat, set as nat),
{
    let p = m.doc.meshes().nth(mesh)?.primitives().nth(prim)?;
    let reader = p.reader(|b| buffers.get(b.index()).map(|v| v.as_slice()));
    reader.read_joints(set).map(|it| it.into_u16().collect())
}

/// Relies on gltf's `Reader::read_weights` with `ReadWeights::into_f32`.
/// The reader panics on a stream layout it cannot read; `requires` leaves
/// those out.
#[verifier::external_body]
pub(crate) fn read_weights(m: &ParsedModel, buffers: &Vec<Vec<u8>>, mesh: usize, prim: usize, set: u32) -> (r: Option<Vec<[u32; 4]>>)
    requires
        readable_in(m.source(), mesh as nat, prim as nat, Attribute::Weights(set)),
    ensures
        r == model_weights(m.source(), buffers.deep_view(), mesh as nat, prim as nat, set as nat),
{
    let p = m.doc.meshes().nth(mesh)?.primitives().nth(prim)?;
    let reader = p.reader(|b| buffers.get(b.index()).map(|v| v.as_slice()));
    reader.read_weights(set).map(|it| it.into_f32().map(|v| v.map(|x| x.to_bits())).collect())
}

/// Relies on gltf's `Reader::read_indices` with `ReadIndices::into_u32`.
/// The reader panics on a stream layout it cannot read; `requires` leaves
/// those out.
#[verifier::external_body]
pub(crate) fn read_indices(m: &ParsedModel, buffers: &Vec<Vec<u8>>, mesh: usize, prim: usize) -> (r: Option<Vec<u32>>)
    requires
        readable_in(m.source(), mesh as nat, prim as nat, Attribute::Indices),
    ensures
        r == model_indices(m.source(), buffers.deep_view(), mesh as nat, prim as nat),
{
    let p = m.doc.meshes().nth(mesh)?.primitives().nth(prim)?;
    let reader = p.reader(|b| buffers.get(b.index()).map(|v| v.as_slice()));
    reader.read_indices().map(|it| it.into_u32().collect())
}

/// Relies on the `images` of the model's JSON root (`Document::as_json`),
/// before `Image::source` is asked for any of them.
#[verifier::external_body]
pub(crate) fn image_facts(m: &ParsedModel) -> (r: Vec<(bool, bool, bool)>)
    ensures
        r == model_image_facts(m.source()),
{
    m.doc.as_json().images.iter().map(|i| (i.uri.is_some(), i.buffer_view.is_some(), i.mime_type.is_some())).collect()
}

/// Relies on gltf's `Primitive::material`, which gives the default material
/// to a primitive that names none, and the texture accessors of
/// `Material` and `PbrMetallicRoughness`, with `Image::source` telling a URI
/// from an image embedded in a buffer view, slots in the order of
/// `MaterialTextures`. `Image::source` unwraps the MIME type of an image in a
/// buffer view and the URI of any other image; `requires` leaves out models
/// with an image that lacks them.
#[verifier::external_body]
pub(crate) fn read_material_textures(m: &ParsedModel, mesh: usize, prim: usize) -> (r: Option<MaterialTextures>)
    requires
        images_well_formed(m.source()),
    ensures
        r == model_material_textures(m.source(), mesh as nat, prim as nat),
        mesh < model_primitive_counts(m.source())@.len() && prim < model_primitive_counts(
            m.source(),
        )@[mesh as int] ==> r is Some,
{
    let mat = m.doc.meshes().nth(mesh)?.primitives().nth(prim)?.material();
    let pbr = mat.pbr_metallic_roughness();
    let img = |t: Texture| match t.source().source() {
        ImageSource::Uri { uri, .. } => ImageRef::Uri(uri.to_string()),
        _ => ImageRef::Embedded,
    };
    Some([
        pbr.base_color_texture().map(|i| img(i.texture())),
        pbr.metallic_roughness_texture().map(|i| img(i.texture())),
        mat.normal_texture().map(|i| img(i.texture())),
        mat.occlusion_texture().map(|i| img(i.texture())),
        mat.emissive_texture().map(|i| img(i.texture())),
    ])
}

/// Relies on gltf's `Primitive::material`, which gives the default material
/// to a primitive that names none, and the factor accessors of `Material` and
/// `PbrMetallicRoughness`.
#[verifier::external_body]
pub(crate) fn read_material_factors(m: &ParsedModel, mesh: usize, prim: usize) -> (r: Option<MaterialFactors>)
    ensures
        r == model_material_factors(m.source(), mesh as nat, prim as nat),
        mesh < model_primitive_counts(m.source())@.len() && prim < model_primitive_counts(
            m.source(),
        )@[mesh as int] ==> r is Some,
{
    let mat = m.doc.meshes().nth(mesh)?.primitives().nth(prim)?.material();
    let pbr = mat.pbr_metallic_roughness();
    Some(MaterialFactors {
        base_color: pbr.base_color_factor().map(|x| x.to_bits()),
        metallic: pbr.metallic_factor().to_bits(),
        roughness: pbr.roughness_factor().to_bits(),
        alpha_blend: matches!(mat.alpha_mode(), gltf::material::AlphaMode::Blend),
        double_sided: mat.double_sided(),
    })
}

} // verus!
