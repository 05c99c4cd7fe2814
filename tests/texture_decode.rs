use scene_assets::handles::{AssetHandle, HandleRegistry, TextureHandle};
use scene_assets::loader::{publish_texture, Asset};
use scene_assets::texture::{decode_texture, texture_from_pixels, TextureError};
use std::io::Cursor;

/// A 2 x 3 PNG whose row `y` is filled with the value `10 * (y + 1)`.
fn png_2x3() -> Vec<u8> {
    let mut pixels = Vec::new();
    for y in 0..3u8 {
        for x in 0..2u8 {
            pixels.extend_from_slice(&[10 * (y + 1), x, 0, 255]);
        }
    }
    let img = image::RgbaImage::from_raw(2, 3, pixels).unwrap();
    let mut out = Vec::new();
    img.write_to(&mut Cursor::new(&mut out), image::ImageFormat::Png).unwrap();
    out
}

#[test]
fn decoded_texture_keeps_dimensions_and_flips_rows() {
    let tex = decode_texture("img/a.png".to_string(), "A".to_string(), &png_2x3()).unwrap();
    assert_eq!(tex.width, 2);
    assert_eq!(tex.height, 3);
    assert_eq!(tex.name, "A");
    assert_eq!(tex.path, "img/a.png");
    assert_eq!(tex.data.len(), 2 * 3 * 4);
    assert_eq!(&tex.data[0..8], &[30, 0, 0, 255, 30, 1, 0, 255]);
    assert_eq!(&tex.data[8..16], &[20, 0, 0, 255, 20, 1, 0, 255]);
    assert_eq!(&tex.data[16..24], &[10, 0, 0, 255, 10, 1, 0, 255]);
}

#[test]
fn gray_image_is_widened_to_four_channels() {
    let img = image::GrayImage::from_raw(1, 2, vec![5, 9]).unwrap();
    let mut bytes = Vec::new();
    img.write_to(&mut Cursor::new(&mut bytes), image::ImageFormat::Png).unwrap();
    let tex = decode_texture("g.png".to_string(), "g".to_string(), &bytes).unwrap();
    assert_eq!((tex.width, tex.height), (1, 2));
    assert_eq!(tex.data, vec![9, 9, 9, 255, 5, 5, 5, 255]);
}

#[test]
fn undecodable_bytes_are_an_error() {
    let r = decode_texture("x.png".to_string(), "x".to_string(), b"not an image");
    assert!(matches!(r, Err(TextureError::Decode(_))));
}

#[test]
fn each_decoded_texture_is_published_once_with_a_fresh_handle() {
    let mut registry = HandleRegistry::new();
    let mut published = Vec::new();
    let inputs: Vec<Vec<u8>> = vec![png_2x3(), b"junk".to_vec(), png_2x3()];
    for (i, bytes) in inputs.iter().enumerate() {
        let decoded = decode_texture(format!("t{}.png", i), format!("t{}", i), bytes);
        assert!(registry.can_issue());
        if let Some(pair) = publish_texture(&mut registry, decoded) {
            published.push(pair);
        }
    }
    assert_eq!(published.len(), 2);
    assert_eq!(published[0].0, AssetHandle::Texture(TextureHandle(0)));
    assert_eq!(published[1].0, AssetHandle::Texture(TextureHandle(1)));
    match &published[1].1 {
        Asset::Texture(t) => assert_eq!(t.name, "t2"),
        other => panic!("unexpected asset {:?}", other),
    }
}

#[test]
fn failed_texture_takes_no_handle() {
    let mut registry = HandleRegistry::new();
    let decoded = decode_texture("bad.png".to_string(), "bad".to_string(), &[1, 2, 3]);
    assert!(publish_texture(&mut registry, decoded).is_none());
    assert_eq!(
        registry.next_handle(scene_assets::handles::AssetKind::Texture),
        AssetHandle::Texture(TextureHandle(0))
    );
}

#[test]
fn texture_from_pixels_flips_rows() {
    let pixels: Vec<u8> = (0u8..16).collect();
    let t = texture_from_pixels("p.png".to_string(), "p".to_string(), 2, 2, pixels).unwrap();
    assert_eq!((t.width, t.height), (2, 2));
    assert_eq!(t.data, vec![8, 9, 10, 11, 12, 13, 14, 15, 0, 1, 2, 3, 4, 5, 6, 7]);
}

#[test]
fn texture_from_pixels_refuses_wrong_length() {
    assert!(texture_from_pixels("p.png".to_string(), "p".to_string(), 2, 2, vec![0; 15]).is_none());
}
