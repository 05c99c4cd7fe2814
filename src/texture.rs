use vstd::prelude::*;
use vstd::arithmetic::div_mod::lemma_fundamental_div_mod_converse;
use crate::data::LoadedTexture;

verus! {

#[verifier::external_type_specification]
#[verifier::external_body]
pub struct ExImageError(image::ImageError);

/// The width and height the image decoder reads from an encoded file; `None`
/// where the bytes are not an image it can decode. The pixel values are not
/// named: the JPEG decoder picks its arithmetic by the processor's features.
pub uninterp spec fn decoded_size(bytes: Seq<u8>) -> Option<(u32, u32)>;

/// Relies on `image::load_from_memory` (format guessed from the bytes) and
/// `DynamicImage::to_rgba8`: decodes to 8-bit RGBA, rows top-down, one buffer
/// of `4 * width * height` bytes.
#[verifier::external_body]
fn decode_rgba8(bytes: &[u8]) -> (r: Result<(u32, u32, Vec<u8>), image::ImageError>)
    ensures
        r.is_ok() == decoded_size(bytes@).is_some(),
        r matches Ok((w, h, data)) ==> decoded_size(bytes@) == Some((w, h)) && data@.len() == 4
            * w * h,
{
    let img = image::load_from_memory(bytes)?.to_rgba8();
    let (w, h) = img.dimensions();
    Ok((w, h, img.into_raw()))
}

/// `data` read as `height` rows of `row_bytes` bytes, with the row order
/// reversed.
pub open spec fn flipped_rows(data: Seq<u8>, row_bytes: nat, height: nat) -> Seq<u8> {
    Seq::new(
        data.len(),
        |k: int| data[(height - 1 - k / (row_bytes as int)) * row_bytes + k % (row_bytes as int)],
    )
}

/// Relies on `image::imageops::flip_vertical_in_place`, which swaps pixel
/// `(x, y)` with `(x, height - 1 - y)` for every pixel of the upper half.
#[verifier::external_body]
fn flip_vertical(width: u32, height: u32, data: Vec<u8>) -> (r: Vec<u8>)
    requires
        data@.len() == 4 * width * height,
    ensures
        r@ == flipped_rows(data@, 4 * width as nat, height as nat),
{
    let mut img = image::RgbaImage::from_raw(width, height, data).expect("buffer of 4 * w * h");
    image::imageops::flip_vertical_in_place(&mut img);
    img.into_raw()
}

/// Relies on the `Debug` formatting of `image::ImageError`, for messages only.
#[verifier::external_body]
fn describe_image_error(e: &image::ImageError) -> String {
    format!("{:?}", e)
}

/// Why a texture could not be decoded.
#[derive(Debug, Clone, PartialEq, Eq)]
pub enum TextureError {
    /// The bytes are not an image that the decoder reads; the decoder's message.
    Decode(String),
}

/// `t` is the texture of the given name and path made from `pixels`, an
/// image of `width` by `height` 8-bit RGBA pixels stored top-down: the same
/// dimensions, and the pixel rows in reverse order.
pub open spec fn texture_from(t: LoadedTexture, name: Seq<char>, path: Seq<char>, width: u32, height: u32, pixels: Seq<u8>) -> bool {
    &&& pixels.len() == 4 * width * height
    &&& t.name@ == name
    &&& t.path@ == path
    &&& t.width == width
    &&& t.height == height
    &&& t.data@ == flipped_rows(pixels, 4 * width as nat, height as nat)
}

/// Makes a texture from `width` by `height` RGBA pixels stored top-down, so
/// that its row 0 is the image's bottom row; `None` where `pixels` is not
/// `4 * width * height` bytes long.
pub fn texture_from_pixels(path: String, name: String, width: u32, height: u32, pixels: Vec<u8>) -> (r: Option<LoadedTexture>)
    ensures
        r is Some == (pixels@.len() == 4 * width * height),
        r matches Some(t) ==> texture_from(t, name@, path@, width, height, pixels@),
{
    let w = width as u128;
    let h = height as u128;
    assert(4 * w * h <= 4 * (u32::MAX as int) * (u32::MAX as int)) by (nonlinear_arith)
        requires
            w <= u32::MAX,
            h <= u32::MAX,
    ;
    if pixels.len() as u128 != 4 * w * h {
        return None;
    }
    let data = flip_vertical(width, height, pixels);
    Some(LoadedTexture { name, path, width, height, data })
}

/// Decodes the encoded image `bytes`, read from `path`, into a texture whose
/// row 0 is the bottom row of the source image: the decoder's dimensions, and
/// `texture_from_pixels` applied to the pixels it produced.
pub fn decode_texture(path: String, name: String, bytes: &[u8]) -> (r: Result<LoadedTexture, TextureError>)
    ensures
        r.is_ok() == decoded_size(bytes@).is_some(),
        r matches Ok(t) ==> decoded_size(bytes@) == Some((t.width, t.height)) && exists|pixels: Seq<u8>|
            texture_from(t, name@, path@, t.width, t.height, pixels),
{
    match decode_rgba8(bytes) {
        Ok((width, height, pixels)) => {
            let ghost decoded = pixels@;
            match texture_from_pixels(path, name, width, height, pixels) {
                Some(t) => {
                    assert(texture_from(t, name@, path@, t.width, t.height, decoded));
                    Ok(t)
                },
                None => Err(TextureError::Decode(String::from_str("decoded buffer of the wrong size"))),
            }
        },
        Err(e) => Err(TextureError::Decode(describe_image_error(&e))),
    }
}

/// A texture made from an image keeps its dimensions, and its row `y` holds
/// the bytes of the image's row `height - 1 - y`: row 0 is the image's bottom
/// row.
pub proof fn lemma_texture_rows_flipped(t: LoadedTexture, name: Seq<char>, path: Seq<char>, w: u32, h: u32, src: Seq<u8>)
    requires
        texture_from(t, name, path, w, h, src),
    ensures
        t.width == w && t.height == h && forall|y: int, x: int|
            0 <= y < h && 0 <= x < 4 * w ==> t.data@[y * (4 * w) + x] == #[trigger] src[(h - 1 - y)
                * (4 * w) + x],
{
    assert forall|y: int, x: int| 0 <= y < h && 0 <= x < 4 * w implies t.data@[y * (4 * w) + x]
        == #[trigger] src[(h - 1 - y) * (4 * w) + x] by {
        let rb = 4 * w as int;
        let k = y * rb + x;
        lemma_fundamental_div_mod_converse(k, rb, y, x);
        assert(0 <= k < rb * h) by (nonlinear_arith)
            requires
                k == y * rb + x,
                0 <= y < h,
                0 <= x < rb,
        ;
        assert(src.len() == rb * h) by (nonlinear_arith)
            requires
                src.len() == 4 * w * h,
                rb == 4 * w,
        ;
    }
}

} // verus!
