use scene_assets::data::{Color, LoadedMesh};
use scene_assets::decode::{buffer_files, decode_model, gather_buffers, resolve_buffer_path};
use scene_assets::handles::{AssetHandle, AssetKind, HandleRegistry, MeshHandle};
use scene_assets::instance::{DynamicMesh, InstanceError, StaticMesh, ONE};
use scene_assets::interleave::InterleaveError;
use scene_assets::layout::calculate_stride;
use scene_assets::loader::publish_mesh;
use scene_assets::decode::UnsupportedColorSet;
use scene_assets::model::{Attribute, MeshError, ParsedModel};
use scene_assets::tables::ResourceTables;

const TWO_PRIMITIVES: &str = r#"{
  "asset": {"version": "2.0"},
  "buffers": [{"uri": "tri.bin", "byteLength": 144}],
  "bufferViews": [
    {"buffer": 0, "byteOffset": 0, "byteLength": 36},
    {"buffer": 0, "byteOffset": 36, "byteLength": 36},
    {"buffer": 0, "byteOffset": 72, "byteLength": 24},
    {"buffer": 0, "byteOffset": 96, "byteLength": 36},
    {"buffer": 0, "byteOffset": 132, "byteLength": 12}
  ],
  "accessors": [
    {"bufferView": 0, "componentType": 5126, "count": 3, "type": "VEC3", "min": [0, 0, 0], "max": [1, 1, 0]},
    {"bufferView": 1, "componentType": 5126, "count": 3, "type": "VEC3"},
    {"bufferView": 2, "componentType": 5126, "count": 3, "type": "VEC2"},
    {"bufferView": 3, "componentType": 5126, "count": 3, "type": "VEC3", "min": [0, 0, 0], "max": [1, 1, 0]},
    {"bufferView": 4, "componentType": 5125, "count": 3, "type": "SCALAR"}
  ],
  "meshes": [{"primitives": [
    {"attributes": {"POSITION": 0, "NORMAL": 1, "TEXCOORD_0": 2}, "indices": 4},
    {"attributes": {"POSITION": 3}}
  ]}]
}"#;

fn push_f32s(out: &mut Vec<u8>, values: &[f32]) {
    for v in values {
        out.extend_from_slice(&v.to_le_bytes());
    }
}

fn tri_bin() -> Vec<u8> {
    let mut b = Vec::new();
    push_f32s(&mut b, &[0.0, 0.0, 0.0, 1.0, 0.0, 0.0, 0.0, 1.0, 0.0]);
    push_f32s(&mut b, &[0.0, 0.0, 1.0, 0.0, 0.0, 1.0, 0.0, 0.0, 1.0]);
    push_f32s(&mut b, &[0.0, 0.0, 1.0, 0.0, 0.0, 1.0]);
    push_f32s(&mut b, &[0.0, 0.0, 0.0, 1.0, 0.0, 0.0, 0.0, 1.0, 0.0]);
    for i in 0u32..3 {
        b.extend_from_slice(&i.to_le_bytes());
    }
    b
}

#[test]
fn sibling_buffer_resolves_against_model_directory() {
    let m = ParsedModel::parse(TWO_PRIMITIVES.as_bytes()).unwrap();
    let files = buffer_files("assets/models/tri.gltf", &m);
    assert_eq!(files, vec![Some("assets/models/tri.bin".to_string())]);
    assert_eq!(resolve_buffer_path("tri.gltf", "tri.bin"), "tri.bin");
    assert_eq!(resolve_buffer_path("/data/scene/a.gltf", "bin/a.bin"), "/data/scene/bin/a.bin");
    assert_eq!(resolve_buffer_path("C:\\models\\a.gltf", "a.bin"), "C:\\models/a.bin");
    assert_eq!(resolve_buffer_path("dir/sub/", "x.bin"), "dir/sub/x.bin");
    assert_eq!(resolve_buffer_path("dir/a.gltf", "/abs/b.bin"), "/abs/b.bin");
}

#[test]
fn two_primitive_mesh_has_independent_strides() {
    let m = ParsedModel::parse(TWO_PRIMITIVES.as_bytes()).unwrap();
    let buffers = gather_buffers(&m, &vec![Some(tri_bin())]).unwrap();
    let (mesh, notes) =
        decode_model("assets/tri.gltf".to_string(), "Tri".to_string(), &m, &buffers).unwrap();
    assert!(notes.is_empty());
    assert_eq!(mesh.name, "Tri");
    assert_eq!(mesh.primitives.len(), 2);

    let p0 = &mesh.primitives[0];
    assert_eq!(p0.vertex_data.positions.len(), 3);
    assert_eq!(p0.vertex_data.positions[1], [1.0f32.to_bits(), 0, 0]);
    assert!(p0.vertex_data.normals.is_some());
    assert_eq!(p0.vertex_data.texcoords.len(), 1);
    assert_eq!(p0.indices, Some(vec![0, 1, 2]));
    let mat = p0.material.as_ref().unwrap();
    assert!(mat.base_color_texture.is_none());
    assert!(matches!(&mat.base_color_factor, Color::Rgba(v) if v == &vec![[ONE; 4]]));
    assert_eq!(mat.metallic_factor, ONE);
    assert!(!mat.alpha_mode);
    assert!(!mat.double_sided);

    let p1 = &mesh.primitives[1];
    assert!(p1.vertex_data.normals.is_none());
    assert!(p1.vertex_data.texcoords.is_empty());
    assert_eq!(p1.indices, None);

    let mut registry = HandleRegistry::new();
    let (handle, asset) = publish_mesh(&mut registry, Ok(mesh)).unwrap();
    assert_eq!(handle, AssetHandle::Mesh(MeshHandle(0)));
    let mut tables = ResourceTables::new();
    tables.integrate(handle, asset).unwrap();
    let mesh_handle = handle.as_mesh_handle().unwrap();

    let instance = StaticMesh::new("tri".to_string(), mesh_handle, &tables).unwrap();
    assert_eq!(instance.primitives.len(), 2);
    let rd0 = instance.primitives[0].render_data.as_ref().unwrap();
    let rd1 = instance.primitives[1].render_data.as_ref().unwrap();
    assert_eq!(instance.primitives[1].primitive_index, 1);
    assert_eq!(rd0.stride, 32);
    assert_eq!(rd1.stride, 12);
    assert_eq!(calculate_stride(&rd0.layouts), Ok(32));
    assert_eq!(rd0.vertices.len(), 3 * 8);
    assert_eq!(rd1.vertices.len(), 3 * 3);
    assert_eq!(rd0.indices, vec![0, 1, 2]);
    assert!(rd1.indices.is_empty());
    assert_eq!(instance.scale, [ONE; 3]);
    assert_eq!(instance.translation, [0; 3]);

    let dynamic = DynamicMesh::new("tri2".to_string(), mesh_handle, &tables).unwrap();
    assert_eq!(dynamic.primitives.len(), 2);
}

#[test]
fn unreadable_buffer_fails_the_load() {
    let m = ParsedModel::parse(TWO_PRIMITIVES.as_bytes()).unwrap();
    assert_eq!(gather_buffers(&m, &vec![None]), Err(MeshError::BufferUnreadable { buffer: 0 }));
    assert_eq!(gather_buffers(&m, &Vec::new()), Err(MeshError::BufferUnreadable { buffer: 0 }));
}

#[test]
fn buffer_without_uri_needs_a_binary_chunk() {
    let json = TWO_PRIMITIVES.replace(r#""uri": "tri.bin", "#, "");
    let m = ParsedModel::parse(json.as_bytes()).unwrap();
    assert_eq!(buffer_files("a.gltf", &m), vec![None]);
    assert_eq!(gather_buffers(&m, &vec![None]), Err(MeshError::BinaryChunkMissing { buffer: 0 }));
}

#[test]
fn primitive_without_positions_publishes_nothing() {
    let json = TWO_PRIMITIVES.replace(r#"{"attributes": {"POSITION": 3}}"#, r#"{"attributes": {"NORMAL": 1}}"#);
    let parsed = ParsedModel::parse(json.as_bytes());
    assert!(matches!(parsed, Err(MeshError::Parse(_))));
    let mut registry = HandleRegistry::new();
    let outcome: Result<LoadedMesh, MeshError> = match parsed {
        Ok(_) => unreachable!(),
        Err(e) => Err(e),
    };
    assert!(publish_mesh(&mut registry, outcome).is_none());
    assert_eq!(registry.next_handle(AssetKind::Mesh), AssetHandle::Mesh(MeshHandle(0)));
}

#[test]
fn positions_without_data_fail_with_missing_positions() {
    let m = ParsedModel::parse(TWO_PRIMITIVES.as_bytes()).unwrap();
    let r = decode_model("a.gltf".to_string(), "a".to_string(), &m, &Vec::new());
    assert_eq!(r.map(|_| ()), Err(MeshError::MissingPositions { mesh: 0, primitive: 0 }));
    let mut registry = HandleRegistry::new();
    assert!(publish_mesh(&mut registry, Err(MeshError::MissingPositions { mesh: 0, primitive: 0 })).is_none());
    assert!(registry.can_issue());
    assert_eq!(registry.next_handle(AssetKind::Mesh), AssetHandle::Mesh(MeshHandle(0)));
}

#[test]
fn malformed_model_is_a_parse_error() {
    assert!(matches!(ParsedModel::parse(b"{ nope"), Err(MeshError::Parse(_))));
}

#[test]
fn instancing_an_unknown_handle_fails() {
    let tables = ResourceTables::new();
    let r = StaticMesh::new("x".to_string(), MeshHandle(9), &tables);
    assert_eq!(r.map(|_| ()), Err(InstanceError::MeshNotFound));
}

#[test]
fn instancing_a_skinned_primitive_fails() {
    let json = TWO_PRIMITIVES
        .replace(r#"{"attributes": {"POSITION": 3}}"#, r#"{"attributes": {"POSITION": 3, "WEIGHTS_0": 5}}"#)
        .replace(
            r#"{"bufferView": 4, "componentType": 5125, "count": 3, "type": "SCALAR"}"#,
            r#"{"bufferView": 4, "componentType": 5125, "count": 3, "type": "SCALAR"},
    {"bufferView": 5, "componentType": 5126, "count": 3, "type": "VEC4"}"#,
        )
        .replace(
            r#"{"buffer": 0, "byteOffset": 132, "byteLength": 12}"#,
            r#"{"buffer": 0, "byteOffset": 132, "byteLength": 12},
    {"buffer": 0, "byteOffset": 144, "byteLength": 48}"#,
        )
        .replace(r#""byteLength": 144}"#, r#""byteLength": 192}"#);
    let m = ParsedModel::parse(json.as_bytes()).unwrap();
    let mut bin = tri_bin();
    push_f32s(&mut bin, &[1.0, 0.0, 0.0, 0.0, 1.0, 0.0, 0.0, 0.0, 1.0, 0.0, 0.0, 0.0]);
    let buffers = gather_buffers(&m, &vec![Some(bin)]).unwrap();
    let (mesh, _) = decode_model("s.gltf".to_string(), "s".to_string(), &m, &buffers).unwrap();
    assert!(mesh.primitives[1].vertex_data.weights.is_some());
    let mut registry = HandleRegistry::new();
    let (handle, asset) = publish_mesh(&mut registry, Ok(mesh)).unwrap();
    let mut tables = ResourceTables::new();
    tables.integrate(handle, asset).unwrap();
    let r = StaticMesh::new("s".to_string(), handle.as_mesh_handle().unwrap(), &tables);
    assert_eq!(
        r.map(|_| ()),
        Err(InstanceError::Interleave { primitive: 1, reason: InterleaveError::SkinningUnsupported })
    );
}

/// One triangle with a color stream of the given accessor fields and a joint
/// stream of 8-bit indices.
fn colored(color_accessor: &str, color_bytes: usize) -> String {
    let total = 36 + 12 + color_bytes;
    format!(
        r#"{{
  "asset": {{"version": "2.0"}},
  "buffers": [{{"uri": "c.bin", "byteLength": {total}}}],
  "bufferViews": [
    {{"buffer": 0, "byteOffset": 0, "byteLength": 36}},
    {{"buffer": 0, "byteOffset": 36, "byteLength": 12}},
    {{"buffer": 0, "byteOffset": 48, "byteLength": {color_bytes}}}
  ],
  "accessors": [
    {{"bufferView": 0, "componentType": 5126, "count": 3, "type": "VEC3", "min": [0, 0, 0], "max": [1, 1, 0]}},
    {{"bufferView": 1, "componentType": 5121, "count": 3, "type": "VEC4"}},
    {{"bufferView": 2, "count": 3, {color_accessor}}}
  ],
  "meshes": [{{"primitives": [{{"attributes": {{"POSITION": 0, "JOINTS_0": 1, "COLOR_0": 2}}}}]}}]
}}"#
    )
}

fn colored_bin(color_data: &[u8]) -> Vec<u8> {
    let mut b = Vec::new();
    push_f32s(&mut b, &[0.0, 0.0, 0.0, 1.0, 0.0, 0.0, 0.0, 1.0, 0.0]);
    b.extend_from_slice(&[0, 1, 2, 3, 4, 5, 6, 7, 8, 9, 10, 11]);
    b.extend_from_slice(color_data);
    b
}

fn decode(json: &str, bin: Vec<u8>) -> Result<(LoadedMesh, Vec<UnsupportedColorSet>), MeshError> {
    let m = ParsedModel::parse(json.as_bytes()).unwrap();
    let buffers = gather_buffers(&m, &vec![Some(bin)]).unwrap();
    decode_model("c.gltf".to_string(), "c".to_string(), &m, &buffers)
}

#[test]
fn byte_colors_are_normalized_and_joints_widened() {
    let json = colored(r#""componentType": 5121, "normalized": true, "type": "VEC4""#, 12);
    let bin = colored_bin(&[255, 0, 255, 255, 0, 255, 0, 255, 0, 0, 255, 0]);
    let (mesh, notes) = decode(&json, bin).unwrap();
    assert!(notes.is_empty());
    let vd = &mesh.primitives[0].vertex_data;
    assert_eq!(vd.joints, Some(vec![[0, 1, 2, 3], [4, 5, 6, 7], [8, 9, 10, 11]]));
    assert_eq!(vd.colors.len(), 1);
    match &vd.colors[0] {
        Color::Rgba(v) => {
            let first: Vec<f32> = v[0].iter().map(|b| f32::from_bits(*b)).collect();
            assert!((first[0] - 1.0).abs() < 1e-6);
            assert_eq!(first[1], 0.0);
            assert!((first[3] - 1.0).abs() < 1e-6);
            assert_eq!(f32::from_bits(v[2][3]), 0.0);
        }
        other => panic!("expected RGBA colors, got {:?}", other),
    }
}

#[test]
fn float_rgb_colors_are_kept() {
    let json = colored(r#""componentType": 5126, "type": "VEC3""#, 36);
    let mut color = Vec::new();
    push_f32s(&mut color, &[0.5, 0.25, 1.0, 0.0, 0.0, 0.0, 1.0, 1.0, 1.0]);
    let (mesh, _) = decode(&json, colored_bin(&color)).unwrap();
    match &mesh.primitives[0].vertex_data.colors[0] {
        Color::Rgb(v) => assert_eq!(v[0], [0.5f32.to_bits(), 0.25f32.to_bits(), 1.0f32.to_bits()]),
        other => panic!("expected RGB colors, got {:?}", other),
    }
}

#[test]
fn sixteen_bit_colors_are_skipped_and_reported() {
    let json = colored(r#""componentType": 5123, "normalized": true, "type": "VEC3""#, 18);
    let (mesh, notes) = decode(&json, colored_bin(&[0xff; 18])).unwrap();
    assert!(mesh.primitives[0].vertex_data.colors.is_empty());
    assert_eq!(notes, vec![UnsupportedColorSet { mesh: 0, primitive: 0 }]);
}

#[test]
fn color_stream_of_wrong_shape_is_refused() {
    let json = colored(r#""componentType": 5126, "type": "VEC2""#, 24);
    let r = decode(&json, colored_bin(&[0; 24]));
    assert_eq!(
        r.map(|_| ()),
        Err(MeshError::UnsupportedFormat { mesh: 0, primitive: 0, attribute: Attribute::Colors(0) })
    );
}

fn glb(json: &str, bin: &[u8]) -> Vec<u8> {
    let mut json_bytes = json.as_bytes().to_vec();
    while json_bytes.len() % 4 != 0 {
        json_bytes.push(b' ');
    }
    let mut bin_bytes = bin.to_vec();
    while bin_bytes.len() % 4 != 0 {
        bin_bytes.push(0);
    }
    let total = 12 + 8 + json_bytes.len() + 8 + bin_bytes.len();
    let mut out = Vec::new();
    out.extend_from_slice(b"glTF");
    out.extend_from_slice(&2u32.to_le_bytes());
    out.extend_from_slice(&(total as u32).to_le_bytes());
    out.extend_from_slice(&(json_bytes.len() as u32).to_le_bytes());
    out.extend_from_slice(b"JSON");
    out.extend_from_slice(&json_bytes);
    out.extend_from_slice(&(bin_bytes.len() as u32).to_le_bytes());
    out.extend_from_slice(b"BIN\0");
    out.extend_from_slice(&bin_bytes);
    out
}

#[test]
fn binary_container_reads_its_own_chunk() {
    let json = TWO_PRIMITIVES.replace(r#""uri": "tri.bin", "#, "");
    let bytes = glb(&json, &tri_bin());
    let m = ParsedModel::parse(&bytes).unwrap();
    assert_eq!(buffer_files("scene/tri.glb", &m), vec![None]);
    let buffers = gather_buffers(&m, &vec![None]).unwrap();
    assert_eq!(buffers, vec![tri_bin()]);
    let (mesh, _) = decode_model("scene/tri.glb".to_string(), "glb".to_string(), &m, &buffers).unwrap();
    assert_eq!(mesh.primitives.len(), 2);
    assert_eq!(mesh.primitives[0].vertex_data.positions[2], [0, 1.0f32.to_bits(), 0]);
}

fn decode_two(json: &str) -> Result<(), MeshError> {
    let m = ParsedModel::parse(json.as_bytes())?;
    let buffers = gather_buffers(&m, &vec![Some(tri_bin())])?;
    decode_model("t.gltf".to_string(), "t".to_string(), &m, &buffers).map(|_| ())
}

#[test]
fn position_naming_a_missing_accessor_is_a_parse_error() {
    let json = TWO_PRIMITIVES.replace(r#"{"attributes": {"POSITION": 3}}"#, r#"{"attributes": {"POSITION": 9}}"#);
    assert!(matches!(ParsedModel::parse(json.as_bytes()), Err(MeshError::Parse(_))));
}

#[test]
fn stride_smaller_than_an_element_is_refused() {
    let json = TWO_PRIMITIVES.replace(
        r#"{"buffer": 0, "byteOffset": 96, "byteLength": 36}"#,
        r#"{"buffer": 0, "byteOffset": 96, "byteLength": 36, "byteStride": 4}"#,
    );
    assert_eq!(
        decode_two(&json),
        Err(MeshError::UnsupportedFormat { mesh: 0, primitive: 1, attribute: Attribute::Positions })
    );
}

#[test]
fn empty_accessor_is_refused() {
    let json = TWO_PRIMITIVES.replace(
        r#"{"bufferView": 1, "componentType": 5126, "count": 3, "type": "VEC3"}"#,
        r#"{"bufferView": 1, "componentType": 5126, "count": 0, "type": "VEC3"}"#,
    );
    assert_eq!(
        decode_two(&json),
        Err(MeshError::UnsupportedFormat { mesh: 0, primitive: 0, attribute: Attribute::Normals })
    );
}

#[test]
fn texcoords_of_wrong_shape_are_refused() {
    let json = TWO_PRIMITIVES.replace(
        r#"{"bufferView": 2, "componentType": 5126, "count": 3, "type": "VEC2"}"#,
        r#"{"bufferView": 2, "componentType": 5126, "count": 2, "type": "VEC3"}"#,
    );
    assert_eq!(
        decode_two(&json),
        Err(MeshError::UnsupportedFormat { mesh: 0, primitive: 0, attribute: Attribute::TexCoords(0) })
    );
}

#[test]
fn short_stream_is_a_length_mismatch() {
    let json = TWO_PRIMITIVES.replace(
        r#"{"bufferView": 1, "componentType": 5126, "count": 3, "type": "VEC3"}"#,
        r#"{"bufferView": 1, "componentType": 5126, "count": 2, "type": "VEC3"}"#,
    );
    assert_eq!(decode_two(&json), Err(MeshError::StreamLengthMismatch { mesh: 0, primitive: 0 }));
}

#[test]
fn sparse_accessor_is_refused() {
    let json = TWO_PRIMITIVES.replace(
        r#"{"bufferView": 1, "componentType": 5126, "count": 3, "type": "VEC3"}"#,
        r#"{"bufferView": 1, "componentType": 5126, "count": 3, "type": "VEC3",
          "sparse": {"count": 1, "indices": {"bufferView": 4, "componentType": 5125},
                     "values": {"bufferView": 1}}}"#,
    );
    assert_eq!(
        decode_two(&json),
        Err(MeshError::UnsupportedFormat { mesh: 0, primitive: 0, attribute: Attribute::Normals })
    );
}

#[test]
fn container_shorter_than_its_header_is_a_parse_error() {
    let mut bytes = b"glTF".to_vec();
    bytes.extend_from_slice(&2u32.to_le_bytes());
    bytes.extend_from_slice(&4u32.to_le_bytes());
    bytes.extend_from_slice(&[0; 8]);
    assert!(matches!(ParsedModel::parse(&bytes), Err(MeshError::Parse(_))));
}

fn with_material(image: &str) -> String {
    TWO_PRIMITIVES
        .replace(
            r#""meshes": ["#,
            &format!(
                r#""images": [{}],
  "textures": [{{"source": 0}}],
  "materials": [{{"pbrMetallicRoughness": {{"baseColorTexture": {{"index": 0}}}}, "doubleSided": true}}],
  "meshes": ["#,
                image
            ),
        )
        .replace(r#""indices": 4}"#, r#""indices": 4, "material": 0}"#)
}

#[test]
fn material_texture_is_read_by_uri() {
    let json = with_material(r#"{"uri": "wood.png"}"#);
    let m = ParsedModel::parse(json.as_bytes()).unwrap();
    let buffers = gather_buffers(&m, &vec![Some(tri_bin())]).unwrap();
    let (mesh, _) = decode_model("t.gltf".to_string(), "t".to_string(), &m, &buffers).unwrap();
    let mat = mesh.primitives[0].material.as_ref().unwrap();
    assert_eq!(mat.base_color_texture, Some("wood.png".to_string()));
    assert!(mat.double_sided);
    assert!(mesh.primitives[1].material.as_ref().unwrap().base_color_texture.is_none());
}

#[test]
fn embedded_material_image_reads_as_no_texture() {
    let json = with_material(r#"{"bufferView": 2, "mimeType": "image/png"}"#);
    let m = ParsedModel::parse(json.as_bytes()).unwrap();
    let buffers = gather_buffers(&m, &vec![Some(tri_bin())]).unwrap();
    let (mesh, _) = decode_model("t.gltf".to_string(), "t".to_string(), &m, &buffers).unwrap();
    assert!(mesh.primitives[0].material.as_ref().unwrap().base_color_texture.is_none());
}

#[test]
fn image_without_a_source_is_refused() {
    for image in [r#"{"name": "nowhere"}"#, r#"{"bufferView": 2}"#] {
        let json = with_material(image);
        assert_eq!(decode_two(&json), Err(MeshError::MalformedImage { image: 0 }));
    }
}
