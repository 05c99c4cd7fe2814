use rayon::iter::{IntoParallelIterator, ParallelIterator};
use scene_assets::handles::{
    AssetHandle, AssetKind, HandleRegistry, MaterialHandle, MeshHandle, ShaderHandle,
    TextureHandle,
};
use std::collections::HashSet;
use std::sync::Mutex;

#[test]
fn as_handle_accessors_pick_their_kind() {
    let t = AssetHandle::Texture(TextureHandle(3));
    let m = AssetHandle::Mesh(MeshHandle(4));
    let mat = AssetHandle::Material(MaterialHandle(5));
    let s = AssetHandle::Shader(ShaderHandle(6));
    assert_eq!(t.as_texture_handle(), Some(TextureHandle(3)));
    assert_eq!(t.as_mesh_handle(), None);
    assert_eq!(m.as_mesh_handle(), Some(MeshHandle(4)));
    assert_eq!(m.as_texture_handle(), None);
    assert_eq!(mat.as_material_handle(), Some(MaterialHandle(5)));
    assert_eq!(mat.as_shader_handle(), None);
    assert_eq!(s.as_shader_handle(), Some(ShaderHandle(6)));
    assert_eq!(s.as_material_handle(), None);
}

#[test]
fn registry_counts_up_across_kinds() {
    let mut registry = HandleRegistry::new();
    assert!(registry.can_issue());
    assert_eq!(registry.next_handle(AssetKind::Texture), AssetHandle::Texture(TextureHandle(0)));
    assert_eq!(registry.next_handle(AssetKind::Mesh), AssetHandle::Mesh(MeshHandle(1)));
    assert_eq!(registry.next_handle(AssetKind::Material), AssetHandle::Material(MaterialHandle(2)));
    assert_eq!(registry.next_handle(AssetKind::Shader), AssetHandle::Shader(ShaderHandle(3)));
    assert_eq!(registry.next_handle(AssetKind::Texture), AssetHandle::Texture(TextureHandle(4)));
}

fn handle_number(h: AssetHandle) -> usize {
    match h {
        AssetHandle::Texture(t) => t.0,
        AssetHandle::Mesh(m) => m.0,
        AssetHandle::Material(m) => m.0,
        AssetHandle::Shader(s) => s.0,
    }
}

#[test]
fn concurrent_issuers_get_distinct_handles() {
    let registry = Mutex::new(HandleRegistry::new());
    let handles: Vec<AssetHandle> = (0..200usize)
        .into_par_iter()
        .map(|i| {
            let kind = if i % 2 == 0 { AssetKind::Texture } else { AssetKind::Mesh };
            let mut reg = registry.lock().unwrap();
            assert!(reg.can_issue());
            reg.next_handle(kind)
        })
        .collect();
    assert_eq!(handles.len(), 200);
    let numbers: HashSet<usize> = handles.iter().map(|h| handle_number(*h)).collect();
    assert_eq!(numbers.len(), 200);
    assert_eq!(handles.iter().filter(|h| h.as_texture_handle().is_some()).count(), 100);
    assert_eq!(handles.iter().filter(|h| h.as_mesh_handle().is_some()).count(), 100);
    assert!(numbers.iter().all(|n| *n < 200));
}
