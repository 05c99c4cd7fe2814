use vstd::prelude::*;
use vstd::utf8::{encode_utf8, encode_utf8_valid_utf8, is_char_boundary_iff_is_leading_byte};
use crate::data::{Color, LoadedMaterial, LoadedMesh, LoadedPrimitive, Uv, VertexData};
use crate::model::{
    binary_chunk, buffer_uris, model_blob, model_buffer_uris, model_colors, model_indices,
    model_joints, model_material_factors, model_material_textures, model_normals,
    model_positions, model_primitive_counts, model_tangents, model_tex_coords, model_weights,
    primitive_counts, read_colors, read_indices, read_joints, read_material_factors,
    read_material_textures, read_normals, read_positions, read_tangents, read_tex_coords,
    read_weights, stream_element, stream_span, element_allowed, readable_in,
    Attribute, ColorRead, ImageRef, MaterialFactors, MaterialTextures, MeshError, ParsedModel,
    image_facts, image_malformed, image_sourced, images_well_formed, model_image_facts,
    SCALAR, VEC2, VEC3, VEC4,
};
use vstd::arithmetic::div_mod::lemma_fundamental_div_mod;
use crate::layout::{FLOAT, UNSIGNED_BYTE, UNSIGNED_INT, UNSIGNED_SHORT};

verus! {

/// Whether a byte separates directories in a path: `/`, or `\`. Both count
/// on every platform, so a model path written either way resolves the same.
pub open spec fn is_separator(b: u8) -> bool {
    b == 0x2f || b == 0x5c
}

/// Index of the last separator in `path`, or -1 where there is none.
pub open spec fn last_separator(path: Seq<u8>) -> int
    decreases path.len(),
{
    if path.len() == 0 {
        -1
    } else if is_separator(path.last()) {
        path.len() - 1
    } else {
        last_separator(path.drop_last())
    }
}

/// Where a buffer that a model at `model_path` refers to by `uri` is read
/// from (both as UTF-8 bytes): an absolute `uri` (one starting with a
/// separator) as given; otherwise `uri` inside the directory of the model
/// file, or `uri` alone for a model file named without a directory.
pub open spec fn resolved_buffer_path(model_path: Seq<u8>, uri: Seq<u8>) -> Seq<u8> {
    let k = last_separator(model_path);
    if uri.len() > 0 && is_separator(uri[0]) {
        uri
    } else if k < 0 {
        uri
    } else {
        model_path.subrange(0, k) + seq![0x2fu8] + uri
    }
}

proof fn lemma_last_separator(path: Seq<u8>, i: int)
    requires
        0 <= i <= path.len(),
        forall|j: int| i <= j < path.len() ==> !is_separator(#[trigger] path[j]),
        i == 0 || is_separator(path[i - 1]),
    ensures
        last_separator(path) == i - 1,
    decreases path.len() - i,
{
    if path.len() > i {
        assert(!is_separator(path[path.len() - 1]));
        let shorter = path.drop_last();
        assert forall|j: int| i <= j < shorter.len() implies !is_separator(#[trigger] shorter[j]) by {
            assert(shorter[j] == path[j]);
        }
        lemma_last_separator(shorter, i);
    }
}

proof fn lemma_encode_utf8_concat(a: Seq<char>, b: Seq<char>)
    ensures
        encode_utf8(a + b) == encode_utf8(a) + encode_utf8(b),
    decreases a.len(),
{
    if a.len() > 0 {
        lemma_encode_utf8_concat(a.drop_first(), b);
        assert((a + b).drop_first() =~= a.drop_first() + b);
        assert((a + b)[0] == a[0]);
        assert(encode_utf8(a + b) =~= encode_utf8(a) + encode_utf8(b));
    } else {
        assert(a + b =~= b);
    }
}

/// Resolves a relative buffer URI against the directory of the model file
/// that names it, never against the working directory; keeps an absolute one.
pub fn resolve_buffer_path(model_path: &str, uri: &str) -> (r: String)
    ensures
        encode_utf8(r@) == resolved_buffer_path(encode_utf8(model_path@), encode_utf8(uri@)),
{
    let uri_bytes = uri.as_bytes();
    if uri_bytes.len() > 0 && (uri_bytes[0] == 0x2f || uri_bytes[0] == 0x5c) {
        return String::from_str(uri);
    }
    let bytes = model_path.as_bytes();
    let ghost b = bytes@;
    let mut i: usize = bytes.len();
    while i > 0 && bytes[i - 1] != 0x2f && bytes[i - 1] != 0x5c
        invariant
            b == bytes@,
            i <= b.len(),
            forall|j: int| i <= j < b.len() ==> !is_separator(#[trigger] b[j]),
        decreases i,
    {
        i -= 1;
    }
    proof {
        lemma_last_separator(b, i as int);
    }
    if i == 0 {
        return String::from_str(uri);
    }
    proof {
        encode_utf8_valid_utf8(model_path@);
        is_char_boundary_iff_is_leading_byte(b, i - 1);
    }
    let (dir, _) = model_path.split_at(i - 1);
    let mut r = String::from_str(dir);
    r.append("/");
    r.append(uri);
    proof {
        reveal_strlit("/");
        assert(encode_utf8("/"@) == seq![0x2fu8]) by {
            let c = "/"@[0] as u32;
            assert(c == 0x2f);
            assert(c & 0x7f == 0x2f) by (bit_vector)
                requires
                    c == 0x2f,
            ;
            assert("/"@.drop_first() =~= Seq::<char>::empty());
            reveal_with_fuel(encode_utf8, 2);
        }
        lemma_encode_utf8_concat(dir@, "/"@);
        lemma_encode_utf8_concat(dir@ + "/"@, uri@);
    }
    r
}

/// The files to read for the buffers of model `m` found at `model_path`: for
/// each buffer in order, its resolved path, or `None` where it is the binary
/// chunk.
pub fn buffer_files(model_path: &str, m: &ParsedModel) -> (r: Vec<Option<String>>)
    ensures
        r@.len() == model_buffer_uris(m.source())@.len(),
        forall|i: int|
            0 <= i < r@.len() ==> match (#[trigger] model_buffer_uris(m.source())@[i]) {
                Some(uri) => r@[i] matches Some(p) && encode_utf8(p@) == resolved_buffer_path(
                    encode_utf8(model_path@),
                    encode_utf8(uri@),
                ),
                None => r@[i] is None,
            },
{
    let uris = buffer_uris(m);
    let mut r: Vec<Option<String>> = Vec::new();
    let mut i: usize = 0;
    while i < uris.len()
        invariant
            uris == model_buffer_uris(m.source()),
            i <= uris@.len(),
            r@.len() == i,
            forall|j: int|
                0 <= j < i ==> match (#[trigger] uris@[j]) {
                    Some(uri) => r@[j] matches Some(p) && encode_utf8(p@) == resolved_buffer_path(
                        encode_utf8(model_path@),
                        encode_utf8(uri@),
                    ),
                    None => r@[j] is None,
                },
        decreases uris@.len() - i,
    {
        match &uris[i] {
            Some(uri) => r.push(Some(resolve_buffer_path(model_path, uri.as_str()))),
            None => r.push(None),
        }
        i += 1;
    }
    r
}

/// The bytes of file `i`, if it was read.
pub open spec fn file_at(files: Seq<Option<Vec<u8>>>, i: int) -> Option<Seq<u8>> {
    if 0 <= i < files.len() {
        match files[i] {
            Some(v) => Some(v@),
            None => None,
        }
    } else {
        None
    }
}

/// The data of a buffer: the file read for its URI, or the binary chunk.
pub open spec fn buffer_data(uri: Option<String>, blob: Option<Vec<u8>>, file: Option<Seq<u8>>) -> Option<Seq<u8>> {
    match uri {
        Some(_) => file,
        None => match blob {
            Some(b) => Some(b@),
            None => None,
        },
    }
}

/// Every buffer of the model has its data at hand.
pub open spec fn buffers_available(src: Seq<u8>, files: Seq<Option<Vec<u8>>>) -> bool {
    forall|i: int|
        0 <= i < model_buffer_uris(src)@.len() ==> (#[trigger] buffer_data(
            model_buffer_uris(src)@[i],
            model_blob(src),
            file_at(files, i),
        )).is_some()
}

/// Collects the data of every buffer of `m`, in order: the entry of `files`
/// for a buffer read from a file (as listed by `buffer_files`), the binary
/// chunk for the others.
pub fn gather_buffers(m: &ParsedModel, files: &Vec<Option<Vec<u8>>>) -> (r: Result<Vec<Vec<u8>>, MeshError>)
    ensures
        r.is_ok() == buffers_available(m.source(), files@),
        r matches Ok(b) ==> b@.len() == model_buffer_uris(m.source())@.len() && forall|i: int|
            0 <= i < b@.len() ==> Some(#[trigger] b@[i]@) == buffer_data(
                model_buffer_uris(m.source())@[i],
                model_blob(m.source()),
                file_at(files@, i),
            ),
        r matches Err(MeshError::BinaryChunkMissing { buffer }) ==> buffer
            < model_buffer_uris(m.source())@.len() && model_buffer_uris(m.source())@[buffer as int]
            is None && model_blob(m.source()) is None,
        r matches Err(MeshError::BufferUnreadable { buffer }) ==> buffer < model_buffer_uris(
            m.source(),
        )@.len() && model_buffer_uris(m.source())@[buffer as int] is Some && file_at(
            files@,
            buffer as int,
        ) is None,
        r matches Err(e) ==> (e is BinaryChunkMissing || e is BufferUnreadable),
{
    let uris = buffer_uris(m);
    let blob = binary_chunk(m);
    let ghost src = m.source();
    let mut out: Vec<Vec<u8>> = Vec::new();
    let mut i: usize = 0;
    while i < uris.len()
        invariant
            uris == model_buffer_uris(src),
            blob == model_blob(src),
            src == m.source(),
            i <= uris@.len(),
            out@.len() == i,
            forall|j: int|
                0 <= j < i ==> Some(#[trigger] out@[j]@) == buffer_data(uris@[j], blob, file_at(files@, j)),
        decreases uris@.len() - i,
    {
        match &uris[i] {
            Some(_) => {
                if i < files.len() {
                    match &files[i] {
                        Some(data) => {
                            let copy = data.clone();
                            assert(copy@ =~= data@);
                            out.push(copy);
                        },
                        None => {
                            assert(buffer_data(uris@[i as int], blob, file_at(files@, i as int)) is None);
                            return Err(MeshError::BufferUnreadable { buffer: i });
                        },
                    }
                } else {
                    assert(buffer_data(uris@[i as int], blob, file_at(files@, i as int)) is None);
                    return Err(MeshError::BufferUnreadable { buffer: i });
                }
            },
            None => match &blob {
                Some(b) => {
                    let copy = b.clone();
                    assert(copy@ =~= b@);
                    out.push(copy);
                },
                None => {
                    assert(buffer_data(uris@[i as int], blob, file_at(files@, i as int)) is None);
                    return Err(MeshError::BinaryChunkMissing { buffer: i });
                },
            },
        }
        i += 1;
    }
    assert forall|j: int| 0 <= j < uris@.len() implies (#[trigger] buffer_data(
        uris@[j],
        blob,
        file_at(files@, j),
    )).is_some() by {
        assert(Some(out@[j]@) == buffer_data(uris@[j], blob, file_at(files@, j)));
    }
    Ok(out)
}

/// The texcoord sets of a primitive: set 0, then set 1, each where present.
pub open spec fn texcoord_sets(src: Seq<u8>, bufs: Seq<Seq<u8>>, mesh: nat, prim: nat) -> Seq<Uv> {
    (match model_tex_coords(src, bufs, mesh, prim, 0) {
        Some(t) => seq![Uv(t)],
        None => Seq::empty(),
    }) + (match model_tex_coords(src, bufs, mesh, prim, 1) {
        Some(t) => seq![Uv(t)],
        None => Seq::empty(),
    })
}

/// The color sets of a primitive: set 0 where present with 8-bit or float
/// channels; a set with 16-bit channels is left out.
pub open spec fn color_sets(src: Seq<u8>, bufs: Seq<Seq<u8>>, mesh: nat, prim: nat) -> Seq<Color> {
    match model_colors(src, bufs, mesh, prim, 0) {
        Some(ColorRead::Rgb(v)) => seq![Color::Rgb(v)],
        Some(ColorRead::Rgba(v)) => seq![Color::Rgba(v)],
        _ => Seq::empty(),
    }
}

/// Whether color set 0 of a primitive has 16-bit channels.
pub open spec fn has_wide_colors(src: Seq<u8>, bufs: Seq<Seq<u8>>, mesh: nat, prim: nat) -> bool {
    model_colors(src, bufs, mesh, prim, 0) matches Some(ColorRead::Wide)
}

/// The path of a referenced image; embedded images have none.
pub open spec fn image_path(r: Option<ImageRef>) -> Option<Seq<char>> {
    match r {
        Some(ImageRef::Uri(u)) => Some(u@),
        _ => None,
    }
}

/// The characters of an optional string.
pub open spec fn opt_chars(s: Option<String>) -> Option<Seq<char>> {
    match s {
        Some(s) => Some(s@),
        None => None,
    }
}

/// `mat` is the material with the given texture slots and factors.
pub open spec fn material_from(mat: LoadedMaterial, t: MaterialTextures, f: MaterialFactors) -> bool {
    &&& opt_chars(mat.base_color_texture) == image_path(t[0])
    &&& opt_chars(mat.metallic_roughness_texture) == image_path(t[1])
    &&& opt_chars(mat.normal_texture) == image_path(t[2])
    &&& opt_chars(mat.occlusion_texture) == image_path(t[3])
    &&& opt_chars(mat.emissive_texture) == image_path(t[4])
    &&& mat.base_color_factor matches Color::Rgba(v) && v@ == seq![f.base_color]
    &&& mat.metallic_factor == f.metallic
    &&& mat.roughness_factor == f.roughness
    &&& mat.alpha_mode == f.alpha_blend
    &&& mat.double_sided == f.double_sided
}

/// `p` is what primitive `prim` of mesh `mesh` decodes to.
pub open spec fn primitive_decoded(p: LoadedPrimitive, src: Seq<u8>, bufs: Seq<Seq<u8>>, mesh: nat, prim: nat) -> bool {
    let vd = *p.vertex_data;
    &&& model_positions(src, bufs, mesh, prim) == Some(vd.positions)
    &&& vd.normals == model_normals(src, bufs, mesh, prim)
    &&& vd.tangents == model_tangents(src, bufs, mesh, prim)
    &&& vd.texcoords@ == texcoord_sets(src, bufs, mesh, prim)
    &&& vd.colors@ == color_sets(src, bufs, mesh, prim)
    &&& vd.joints == model_joints(src, bufs, mesh, prim, 0)
    &&& vd.weights == model_weights(src, bufs, mesh, prim, 0)
    &&& p.indices == model_indices(src, bufs, mesh, prim)
    &&& vd.vertex_count() > 0
    &&& vd.streams_consistent()
    &&& match (model_material_textures(src, mesh, prim), model_material_factors(src, mesh, prim)) {
        (Some(t), Some(f)) => p.material matches Some(mat) && material_from(mat, t, f),
        _ => p.material is None,
    }
}

fn image_path_of(r: &Option<ImageRef>) -> (p: Option<String>)
    ensures
        opt_chars(p) == image_path(*r),
{
    match r {
        Some(ImageRef::Uri(u)) => Some(u.clone()),
        _ => None,
    }
}

fn material_of(t: MaterialTextures, f: MaterialFactors) -> (mat: LoadedMaterial)
    ensures
        material_from(mat, t, f),
{
    let mut factor: Vec<[u32; 4]> = Vec::new();
    factor.push(f.base_color);
    assert(factor@ =~= seq![f.base_color]);
    LoadedMaterial {
        base_color_texture: image_path_of(&t[0]),
        metallic_roughness_texture: image_path_of(&t[1]),
        normal_texture: image_path_of(&t[2]),
        occlusion_texture: image_path_of(&t[3]),
        emissive_texture: image_path_of(&t[4]),
        base_color_factor: Color::Rgba(factor),
        metallic_factor: f.metallic,
        roughness_factor: f.roughness,
        alpha_mode: f.alpha_blend,
        double_sided: f.double_sided,
    }
}

/// Every stream of the primitive that the library reads can be read.
pub open spec fn formats_allowed(src: Seq<u8>, mesh: nat, prim: nat) -> bool {
    &&& readable_in(src, mesh, prim, Attribute::Positions)
    &&& readable_in(src, mesh, prim, Attribute::Normals)
    &&& readable_in(src, mesh, prim, Attribute::Tangents)
    &&& readable_in(src, mesh, prim, Attribute::TexCoords(0))
    &&& readable_in(src, mesh, prim, Attribute::TexCoords(1))
    &&& readable_in(src, mesh, prim, Attribute::Colors(0))
    &&& readable_in(src, mesh, prim, Attribute::Joints(0))
    &&& readable_in(src, mesh, prim, Attribute::Weights(0))
    &&& readable_in(src, mesh, prim, Attribute::Indices)
}

/// A present stream has exactly `n` elements.
pub open spec fn stream_covers<T>(stream: Option<Vec<T>>, n: nat) -> bool {
    stream matches Some(v) ==> v@.len() == n
}

/// A color set that is kept has exactly `n` elements.
pub open spec fn colors_cover(colors: Option<ColorRead>, n: nat) -> bool {
    match colors {
        Some(ColorRead::Rgb(v)) => v@.len() == n,
        Some(ColorRead::Rgba(v)) => v@.len() == n,
        _ => true,
    }
}

/// The primitive has a non-empty position stream.
pub open spec fn has_positions(src: Seq<u8>, bufs: Seq<Seq<u8>>, mesh: nat, prim: nat) -> bool {
    model_positions(src, bufs, mesh, prim) matches Some(p) && p@.len() > 0
}

/// Every stream kept for the primitive has one element per position.
pub open spec fn streams_cover(src: Seq<u8>, bufs: Seq<Seq<u8>>, mesh: nat, prim: nat) -> bool {
    let n = model_positions(src, bufs, mesh, prim).unwrap()@.len();
    &&& stream_covers(model_normals(src, bufs, mesh, prim), n)
    &&& stream_covers(model_tangents(src, bufs, mesh, prim), n)
    &&& stream_covers(model_tex_coords(src, bufs, mesh, prim, 0), n)
    &&& stream_covers(model_tex_coords(src, bufs, mesh, prim, 1), n)
    &&& colors_cover(model_colors(src, bufs, mesh, prim, 0), n)
    &&& stream_covers(model_joints(src, bufs, mesh, prim, 0), n)
    &&& stream_covers(model_weights(src, bufs, mesh, prim, 0), n)
}

/// Whether a primitive decodes: every stream read is readable, it has
/// positions, and every kept stream covers them.
pub open spec fn primitive_loadable(src: Seq<u8>, bufs: Seq<Seq<u8>>, mesh: nat, prim: nat) -> bool {
    formats_allowed(src, mesh, prim) && has_positions(src, bufs, mesh, prim) && streams_cover(
        src,
        bufs,
        mesh,
        prim,
    )
}

/// The error a primitive that does not decode fails with.
pub open spec fn primitive_failure(src: Seq<u8>, bufs: Seq<Seq<u8>>, mesh: usize, prim: usize, e: MeshError) -> bool {
    match e {
        MeshError::UnsupportedFormat { mesh: m, primitive: p, attribute } => m == mesh && p == prim
            && !readable_in(src, mesh as nat, prim as nat, attribute),
        MeshError::MissingPositions { mesh: m, primitive: p } => m == mesh && p == prim
            && formats_allowed(src, mesh as nat, prim as nat) && !has_positions(src, bufs, mesh as nat, prim as nat),
        MeshError::StreamLengthMismatch { mesh: m, primitive: p } => m == mesh && p == prim
            && formats_allowed(src, mesh as nat, prim as nat) && has_positions(src, bufs, mesh as nat, prim as nat)
            && !streams_cover(src, bufs, mesh as nat, prim as nat),
        _ => false,
    }
}

fn element_ok(attr: Attribute, t: u32, shape: u32) -> (r: bool)
    ensures
        r == element_allowed(attr, t, shape),
{
    let small = t == UNSIGNED_BYTE || t == UNSIGNED_SHORT;
    match attr {
        Attribute::Positions | Attribute::Normals => t == FLOAT && shape == VEC3,
        Attribute::Tangents => t == FLOAT && shape == VEC4,
        Attribute::TexCoords(_) => (small || t == FLOAT) && shape == VEC2,
        Attribute::Colors(_) => (small || t == FLOAT) && (shape == VEC3 || shape == VEC4),
        Attribute::Joints(_) => small && shape == VEC4,
        Attribute::Weights(_) => (small || t == FLOAT) && shape == VEC4,
        Attribute::Indices => (small || t == UNSIGNED_INT) && shape == SCALAR,
    }
}

fn check_stream(m: &ParsedModel, mesh: usize, prim: usize, attr: Attribute) -> (r: bool)
    ensures
        r == readable_in(m.source(), mesh as nat, prim as nat, attr),
{
    let (t, shape, count, sparse) = match stream_element(m, mesh, prim, attr) {
        None => return true,
        Some(e) => e,
    };
    if !element_ok(attr, t, shape) || sparse || count == 0 {
        return false;
    }
    let component: usize = if t == UNSIGNED_BYTE {
        1
    } else if t == UNSIGNED_SHORT {
        2
    } else {
        4
    };
    let elem = component * shape as usize;
    let (offset, view) = match stream_span(m, mesh, prim, attr) {
        None => return false,
        Some(sp) => sp,
    };
    match view {
        None => true,
        Some((view_offset, view_length, stride)) => {
            if view_length > usize::MAX - view_offset {
                return false;
            }
            let s = match stride {
                Some(s) => s,
                None => elem,
            };
            if s < elem || offset > usize::MAX - elem {
                return false;
            }
            let room = usize::MAX - elem - offset;
            let c = count - 1;
            proof {
                lemma_fundamental_div_mod(room as int, s as int);
            }
            assert((c <= room / s) == (s * c <= room)) by (nonlinear_arith)
                requires
                    s > 0,
                    room == s * (room / s) + room % s,
                    0 <= room % s < s,
                    c >= 0,
            ;
            c <= room / s
        },
    }
}

/// The first stream of the primitive that the reader cannot read, if any.
fn first_unreadable(m: &ParsedModel, mesh: usize, prim: usize) -> (r: Option<Attribute>)
    ensures
        r is None == formats_allowed(m.source(), mesh as nat, prim as nat),
        r matches Some(a) ==> !readable_in(m.source(), mesh as nat, prim as nat, a),
{
    if !check_stream(m, mesh, prim, Attribute::Positions) { return Some(Attribute::Positions); }
    if !check_stream(m, mesh, prim, Attribute::Normals) { return Some(Attribute::Normals); }
    if !check_stream(m, mesh, prim, Attribute::Tangents) { return Some(Attribute::Tangents); }
    if !check_stream(m, mesh, prim, Attribute::TexCoords(0)) { return Some(Attribute::TexCoords(0)); }
    if !check_stream(m, mesh, prim, Attribute::TexCoords(1)) { return Some(Attribute::TexCoords(1)); }
    if !check_stream(m, mesh, prim, Attribute::Colors(0)) { return Some(Attribute::Colors(0)); }
    if !check_stream(m, mesh, prim, Attribute::Joints(0)) { return Some(Attribute::Joints(0)); }
    if !check_stream(m, mesh, prim, Attribute::Weights(0)) { return Some(Attribute::Weights(0)); }
    if !check_stream(m, mesh, prim, Attribute::Indices) { return Some(Attribute::Indices); }
    None
}

fn covers<T>(stream: &Option<Vec<T>>, n: usize) -> (r: bool)
    ensures
        r == stream_covers(*stream, n as nat),
{
    match stream {
        Some(v) => v.len() == n,
        None => true,
    }
}

/// Decodes one primitive; also says whether its color set was skipped for
/// having 16-bit channels.
fn decode_primitive(m: &ParsedModel, buffers: &Vec<Vec<u8>>, mesh: usize, prim: usize) -> (r: Result<(LoadedPrimitive, bool), MeshError>)
    requires
        images_well_formed(m.source()),
    ensures
        r.is_ok() == primitive_loadable(m.source(), buffers.deep_view(), mesh as nat, prim as nat),
        r matches Ok((p, wide)) ==> primitive_decoded(p, m.source(), buffers.deep_view(), mesh as nat, prim as nat)
            && wide == has_wide_colors(m.source(), buffers.deep_view(), mesh as nat, prim as nat),
        r matches Err(e) ==> primitive_failure(m.source(), buffers.deep_view(), mesh, prim, e),
{
    let ghost src = m.source();
    let ghost bufs = buffers.deep_view();
    if let Some(attribute) = first_unreadable(m, mesh, prim) {
        return Err(MeshError::UnsupportedFormat { mesh, primitive: prim, attribute });
    }
    let positions = match read_positions(m, buffers, mesh, prim) {
        Some(p) => p,
        None => return Err(MeshError::MissingPositions { mesh, primitive: prim }),
    };
    let n = positions.len();
    if n == 0 {
        return Err(MeshError::MissingPositions { mesh, primitive: prim });
    }
    let normals = read_normals(m, buffers, mesh, prim);
    let tangents = read_tangents(m, buffers, mesh, prim);
    let texcoords0 = read_tex_coords(m, buffers, mesh, prim, 0);
    let texcoords1 = read_tex_coords(m, buffers, mesh, prim, 1);
    let color_read = read_colors(m, buffers, mesh, prim, 0);
    let joints = read_joints(m, buffers, mesh, prim, 0);
    let weights = read_weights(m, buffers, mesh, prim, 0);
    let colors_ok = match &color_read {
        Some(ColorRead::Rgb(v)) => v.len() == n,
        Some(ColorRead::Rgba(v)) => v.len() == n,
        _ => true,
    };
    if !(covers(&normals, n) && covers(&tangents, n) && covers(&texcoords0, n) && covers(&texcoords1, n)
        && colors_ok && covers(&joints, n) && covers(&weights, n)) {
        return Err(MeshError::StreamLengthMismatch { mesh, primitive: prim });
    }
    let mut texcoords: Vec<Uv> = Vec::new();
    if let Some(t) = texcoords0 {
        texcoords.push(Uv(t));
    }
    if let Some(t) = texcoords1 {
        texcoords.push(Uv(t));
    }
    let mut colors: Vec<Color> = Vec::new();
    let mut wide = false;
    match color_read {
        Some(ColorRead::Rgb(v)) => colors.push(Color::Rgb(v)),
        Some(ColorRead::Rgba(v)) => colors.push(Color::Rgba(v)),
        Some(ColorRead::Wide) => wide = true,
        None => {},
    }
    let indices = read_indices(m, buffers, mesh, prim);
    let material = match (read_material_textures(m, mesh, prim), read_material_factors(m, mesh, prim)) {
        (Some(t), Some(f)) => Some(material_of(t, f)),
        _ => None,
    };
    let vertex_data = VertexData { positions, normals, tangents, texcoords, colors, joints, weights };
    assert(vertex_data.texcoords@ =~= texcoord_sets(src, bufs, mesh as nat, prim as nat));
    assert(vertex_data.colors@ =~= color_sets(src, bufs, mesh as nat, prim as nat));
    Ok((LoadedPrimitive { vertex_data: Box::new(vertex_data), material, indices }, wide))
}

/// A primitive whose 16-bit color set was skipped, as not supported yet.
#[derive(Debug, Clone, Copy, PartialEq, Eq, Structural)]
pub struct UnsupportedColorSet {
    pub mesh: usize,
    pub primitive: usize,
}

/// The (mesh, primitive) pairs of the first `n` meshes, mesh by mesh, each
/// mesh's primitives in order.
pub open spec fn primitive_slots(counts: Seq<usize>, n: nat) -> Seq<(nat, nat)>
    decreases n,
{
    if n == 0 {
        Seq::empty()
    } else {
        primitive_slots(counts, (n - 1) as nat) + Seq::new(
            counts[n - 1] as nat,
            |q: int| ((n - 1) as nat, q as nat),
        )
    }
}

/// Every primitive of a parsed model, as (mesh, primitive) pairs in file order.
pub open spec fn model_slots(src: Seq<u8>) -> Seq<(nat, nat)> {
    primitive_slots(model_primitive_counts(src)@, model_primitive_counts(src)@.len())
}

/// Whether primitive `prim` of mesh `mesh` exists in the model.
pub open spec fn is_slot(src: Seq<u8>, mesh: int, prim: int) -> bool {
    0 <= mesh < model_primitive_counts(src)@.len() && 0 <= prim < model_primitive_counts(src)@[mesh]
}

/// Every primitive of the model decodes.
pub open spec fn model_loadable(src: Seq<u8>, bufs: Seq<Seq<u8>>) -> bool {
    &&& images_well_formed(src)
    &&& forall|mesh: nat, prim: nat|
        is_slot(src, mesh as int, prim as int) ==> #[trigger] primitive_loadable(src, bufs, mesh, prim)
}

/// The first image of the model that does not say where its data is, if any.
fn first_malformed_image(m: &ParsedModel) -> (r: Option<usize>)
    ensures
        r is None == images_well_formed(m.source()),
        r matches Some(i) ==> image_malformed(m.source(), i),
{
    let facts = image_facts(m);
    let mut i: usize = 0;
    while i < facts.len()
        invariant
            facts == model_image_facts(m.source()),
            i <= facts@.len(),
            forall|j: int| 0 <= j < i ==> image_sourced(#[trigger] facts@[j]),
        decreases facts@.len() - i,
    {
        let (uri, view, mime) = facts[i];
        let sourced = if view {
            mime
        } else {
            uri
        };
        if !sourced {
            return Some(i);
        }
        i += 1;
    }
    None
}

/// `mesh` holds one primitive per primitive of the model, in file order, each
/// decoded from the model.
pub open spec fn mesh_decoded(mesh: LoadedMesh, src: Seq<u8>, bufs: Seq<Seq<u8>>) -> bool {
    &&& mesh.primitives@.len() == model_slots(src).len()
    &&& forall|k: int|
        0 <= k < mesh.primitives@.len() ==> primitive_decoded(
            #[trigger] mesh.primitives@[k],
            src,
            bufs,
            model_slots(src)[k].0,
            model_slots(src)[k].1,
        )
}

/// `notes` lists exactly the primitives whose 16-bit color set was skipped.
pub open spec fn wide_colors_listed(notes: Seq<UnsupportedColorSet>, src: Seq<u8>, bufs: Seq<Seq<u8>>) -> bool {
    &&& forall|j: int|
        0 <= j < notes.len() ==> is_slot(src, (#[trigger] notes[j]).mesh as int, notes[j].primitive as int)
            && has_wide_colors(src, bufs, notes[j].mesh as nat, notes[j].primitive as nat)
    &&& forall|mesh: int, prim: int|
        is_slot(src, mesh, prim) && #[trigger] has_wide_colors(src, bufs, mesh as nat, prim as nat)
            ==> exists|j: int|
            0 <= j < notes.len() && notes[j] == (UnsupportedColorSet {
                mesh: mesh as usize,
                primitive: prim as usize,
            })
}

/// Decodes every primitive of a parsed model, read through its gathered
/// buffers, into one mesh named `name`. Fails, with nothing decoded, on the
/// first primitive with a stream the reader cannot read, without positions,
/// or with a stream that does not have one element per position, and before
/// any primitive on an image that does not say where its data is. Also lists
/// the primitives whose 16-bit color set was left out.
pub fn decode_model(path: String, name: String, m: &ParsedModel, buffers: &Vec<Vec<u8>>) -> (r: Result<(LoadedMesh, Vec<UnsupportedColorSet>), MeshError>)
    ensures
        r.is_ok() == model_loadable(m.source(), buffers.deep_view()),
        r matches Ok((mesh, notes)) ==> mesh.name == name && mesh.path == path && mesh_decoded(
            mesh,
            m.source(),
            buffers.deep_view(),
        ) && wide_colors_listed(notes@, m.source(), buffers.deep_view()),
        r matches Err(e) ==> match e {
            MeshError::MalformedImage { image } => image_malformed(m.source(), image),
            _ => images_well_formed(m.source()) && exists|mesh: usize, prim: usize|
                is_slot(m.source(), mesh as int, prim as int) && primitive_failure(
                    m.source(),
                    buffers.deep_view(),
                    mesh,
                    prim,
                    e,
                ),
        },
{
    let ghost src = m.source();
    let ghost bufs = buffers.deep_view();
    if let Some(image) = first_malformed_image(m) {
        return Err(MeshError::MalformedImage { image });
    }
    let counts = primitive_counts(m);
    let mut primitives: Vec<LoadedPrimitive> = Vec::new();
    let mut notes: Vec<UnsupportedColorSet> = Vec::new();
    let mut i: usize = 0;
    while i < counts.len()
        invariant
            src == m.source(),
            images_well_formed(src),
            bufs == buffers.deep_view(),
            counts == model_primitive_counts(src),
            i <= counts@.len(),
            primitives@.len() == primitive_slots(counts@, i as nat).len(),
            forall|k: int|
                0 <= k < primitives@.len() ==> primitive_decoded(
                    #[trigger] primitives@[k],
                    src,
                    bufs,
                    primitive_slots(counts@, i as nat)[k].0,
                    primitive_slots(counts@, i as nat)[k].1,
                ),
            forall|mesh: nat, prim: nat|
                mesh < i && is_slot(src, mesh as int, prim as int) ==> #[trigger] primitive_loadable(
                    src,
                    bufs,
                    mesh,
                    prim,
                ),
            forall|j: int|
                0 <= j < notes@.len() ==> is_slot(src, (#[trigger] notes@[j]).mesh as int, notes@[j].primitive as int)
                    && has_wide_colors(src, bufs, notes@[j].mesh as nat, notes@[j].primitive as nat),
            forall|mesh: int, prim: int|
                0 <= mesh < i && is_slot(src, mesh, prim) && #[trigger] has_wide_colors(
                    src,
                    bufs,
                    mesh as nat,
                    prim as nat,
                ) ==> exists|j: int|
                    0 <= j < notes@.len() && notes@[j] == (UnsupportedColorSet {
                        mesh: mesh as usize,
                        primitive: prim as usize,
                    }),
        decreases counts@.len() - i,
    {
        let ghost before = primitive_slots(counts@, i as nat);
        let n = counts[i];
        let mut p: usize = 0;
        while p < n
            invariant
                src == m.source(),
                images_well_formed(src),
                bufs == buffers.deep_view(),
                counts == model_primitive_counts(src),
                i < counts@.len(),
                n == counts@[i as int],
                p <= n,
                before == primitive_slots(counts@, i as nat),
                primitives@.len() == before.len() + p,
                forall|k: int|
                    0 <= k < before.len() ==> primitive_decoded(
                        #[trigger] primitives@[k],
                        src,
                        bufs,
                        before[k].0,
                        before[k].1,
                    ),
                forall|q: int|
                    0 <= q < p ==> primitive_decoded(
                        #[trigger] primitives@[before.len() + q],
                        src,
                        bufs,
                        i as nat,
                        q as nat,
                    ),
                forall|mesh: nat, prim: nat|
                    (mesh < i || (mesh == i && prim < p)) && is_slot(src, mesh as int, prim as int)
                        ==> #[trigger] primitive_loadable(src, bufs, mesh, prim),
                forall|j: int|
                    0 <= j < notes@.len() ==> is_slot(src, (#[trigger] notes@[j]).mesh as int, notes@[j].primitive as int)
                        && has_wide_colors(src, bufs, notes@[j].mesh as nat, notes@[j].primitive as nat),
                forall|mesh: int, prim: int|
                    (0 <= mesh < i || (mesh == i && prim < p)) && is_slot(src, mesh, prim)
                        && #[trigger] has_wide_colors(src, bufs, mesh as nat, prim as nat)
                        ==> exists|j: int|
                        0 <= j < notes@.len() && notes@[j] == (UnsupportedColorSet {
                            mesh: mesh as usize,
                            primitive: prim as usize,
                        }),
            decreases n - p,
        {
            let ghost old_notes = notes@;
            match decode_primitive(m, buffers, i, p) {
                Ok((prim, wide)) => {
                    primitives.push(prim);
                    if wide {
                        notes.push(UnsupportedColorSet { mesh: i, primitive: p });
                    }
                },
                Err(e) => {
                    assert(is_slot(src, i as int, p as int));
                    assert(!primitive_loadable(src, bufs, i as nat, p as nat));
                    return Err(e);
                },
            }
            proof {
                assert forall|mesh: int, prim: int|
                    (0 <= mesh < i || (mesh == i && prim < p + 1)) && is_slot(src, mesh, prim)
                        && #[trigger] has_wide_colors(src, bufs, mesh as nat, prim as nat)
                        implies exists|j: int|
                        0 <= j < notes@.len() && notes@[j] == (UnsupportedColorSet {
                            mesh: mesh as usize,
                            primitive: prim as usize,
                        }) by {
                    if mesh == i && prim == p {
                        let j = notes@.len() - 1;
                        assert(notes@[j] == (UnsupportedColorSet { mesh: i, primitive: p }));
                    } else {
                        let j = choose|j: int|
                            0 <= j < old_notes.len() && old_notes[j] == (UnsupportedColorSet {
                                mesh: mesh as usize,
                                primitive: prim as usize,
                            });
                        assert(notes@[j] == old_notes[j]);
                    }
                }
            }
            p += 1;
        }
        proof {
            let after = primitive_slots(counts@, (i + 1) as nat);
            assert(after == before + Seq::new(n as nat, |q: int| (i as nat, q as nat)));
            assert forall|k: int| 0 <= k < primitives@.len() implies primitive_decoded(
                #[trigger] primitives@[k],
                src,
                bufs,
                after[k].0,
                after[k].1,
            ) by {
                if k >= before.len() {
                    let q = k - before.len();
                    assert(primitives@[before.len() + q] == primitives@[k]);
                }
            }
        }
        i += 1;
    }
    let mesh = LoadedMesh { name, path, primitives };
    Ok((mesh, notes))
}

} // verus!
