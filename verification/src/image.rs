use vstd::prelude::*;

verus! {

#[verifier::external_type_specification]
#[verifier::external_body]
pub struct ExPngEncodingError(png::EncodingError);

/// The bytes that the `png` crate writes for an 8-bit image of `width` × `height`
/// pixels, RGB when `rgb` holds and grayscale otherwise, with `Compression::Fast`.
pub uninterp spec fn png_encoding(width: u32, height: u32, rgb: bool, pixels: Seq<u8>) -> Seq<u8>;

/// Number of bytes of an 8-bit image of `width` × `height` pixels, RGB when `rgb`
/// holds and grayscale otherwise.
pub open spec fn png_size(width: u32, height: u32, rgb: bool) -> int {
    width * height * if rgb { 3int } else { 1int }
}

/// Largest image, in bytes of pixel data, that is handed to the PNG encoder: a quarter
/// of the address space, so that the encoder's own row, buffer and compressed-size
/// arithmetic cannot overflow.
pub open spec fn png_limit() -> int {
    usize::MAX as int / 4
}

/// Whether the PNG encoder accepts an image: non-empty, with exactly one sample of one
/// (grayscale) or three (RGB) bytes per pixel, and within the size limit.
pub open spec fn encodable(width: u32, height: u32, rgb: bool, len: int) -> bool {
    width > 0 && height > 0 && len == png_size(width, height, rgb) && png_size(width, height, rgb) <= png_limit()
}

/// Encodes an image with the `png` crate (`Encoder::new`, `set_color`, `set_depth`,
/// `set_compression(Compression::Fast)`, `write_header`, `Writer::write_image_data`)
/// into memory. Claimed: a successful result is the crate's encoding of exactly these
/// arguments. The crate refuses a zero width or height (`Writer::init`) and pixel data
/// whose length is not `width * height` samples of 1 (grayscale) or 3 (RGB) bytes
/// (`write_image_data`); otherwise it only writes into a `Vec`, which cannot fail, so
/// it succeeds. The crate computes row lengths, the expected data length and a
/// compressed-size bound with unchecked `usize` arithmetic, so larger images are kept
/// out by `requires`.
#[verifier::external_body]
fn png_encode(width: u32, height: u32, rgb: bool, pixels: &[u8]) -> (r: Result<Vec<u8>, png::EncodingError>)
    requires
        png_size(width, height, rgb) <= png_limit(),
    ensures
        r matches Ok(bytes) ==> bytes@ == png_encoding(width, height, rgb, pixels@),
        r is Ok <==> (width > 0 && height > 0 && pixels@.len() == png_size(width, height, rgb)),
{
    let mut bytes = Vec::new();
    {
        let mut encoder = png::Encoder::new(&mut bytes, width, height);
        encoder.set_color(if rgb { png::ColorType::Rgb } else { png::ColorType::Grayscale });
        encoder.set_depth(png::BitDepth::Eight);
        encoder.set_compression(png::Compression::Fast);
        encoder.write_header()?.write_image_data(pixels)?;
    }
    Ok(bytes)
}

/// Why an image could not be encoded.
#[derive(Clone, Copy, Debug, PartialEq, Eq, Structural)]
pub enum EncodeError {
    /// The PNG encoder refused the image.
    Png,
}

/// Whether `png_size(width, height, rgb)` is within the encoder's limit.
fn within_png_limit(width: u32, height: u32, rgb: bool) -> (b: bool)
    ensures
        b == (png_size(width, height, rgb) <= png_limit()),
{
    let samples: u128 = if rgb { 3 } else { 1 };
    let w: u128 = width as u128;
    let h: u128 = height as u128;
    assert(w * h <= 0xffff_ffffu128 * 0xffff_ffffu128) by (nonlinear_arith)
        requires w <= 0xffff_ffffu128, h <= 0xffff_ffffu128;
    assert(w * h * samples <= 0xffff_ffffu128 * 0xffff_ffffu128 * 3) by (nonlinear_arith)
        requires w * h <= 0xffff_ffffu128 * 0xffff_ffffu128, samples <= 3;
    let limit: u128 = (usize::MAX / 4) as u128;
    w * h * samples <= limit
}

/// PNG encoding of an 8-bit grayscale image. Succeeds exactly on an encodable image.
pub fn gray_png(width: u32, height: u32, pixels: &[u8]) -> (r: Result<Vec<u8>, EncodeError>)
    ensures
        r matches Ok(bytes) ==> bytes@ == png_encoding(width, height, false, pixels@),
        r is Ok <==> encodable(width, height, false, pixels@.len() as int),
        r is Err ==> r == Err::<Vec<u8>, EncodeError>(EncodeError::Png),
{
    if !within_png_limit(width, height, false) {
        return Err(EncodeError::Png);
    }
    match png_encode(width, height, false, pixels) {
        Ok(bytes) => Ok(bytes),
        Err(_) => Err(EncodeError::Png),
    }
}

/// PNG encoding of an 8-bit RGB image. Succeeds exactly on an encodable image.
pub fn rgb_png(width: u32, height: u32, pixels: &[u8]) -> (r: Result<Vec<u8>, EncodeError>)
    ensures
        r matches Ok(bytes) ==> bytes@ == png_encoding(width, height, true, pixels@),
        r is Ok <==> encodable(width, height, true, pixels@.len() as int),
        r is Err ==> r == Err::<Vec<u8>, EncodeError>(EncodeError::Png),
{
    if !within_png_limit(width, height, true) {
        return Err(EncodeError::Png);
    }
    match png_encode(width, height, true, pixels) {
        Ok(bytes) => Ok(bytes),
        Err(_) => Err(EncodeError::Png),
    }
}

/// The character of the standard Base64 alphabet (RFC 4648) for a 6-bit value.
pub open spec fn base64_symbol(v: int) -> char {
    if v < 26 {
        (65 + v) as char
    } else if v < 52 {
        (97 + v - 26) as char
    } else if v < 62 {
        (48 + v - 52) as char
    } else if v == 62 {
        '+'
    } else {
        '/'
    }
}

/// Standard Base64 (RFC 4648, section 4) with `=` padding.
pub open spec fn base64_encoded(b: Seq<u8>) -> Seq<char>
    decreases b.len(),
{
    if b.len() == 0 {
        Seq::empty()
    } else {
        let b0 = b[0] as int;
        let b1 = if b.len() > 1 { b[1] as int } else { 0 };
        let b2 = if b.len() > 2 { b[2] as int } else { 0 };
        if b.len() == 1 {
            seq![base64_symbol(b0 / 4), base64_symbol((b0 % 4) * 16), '=', '=']
        } else if b.len() == 2 {
            seq![
                base64_symbol(b0 / 4),
                base64_symbol((b0 % 4) * 16 + b1 / 16),
                base64_symbol((b1 % 16) * 4),
                '=',
            ]
        } else {
            seq![
                base64_symbol(b0 / 4),
                base64_symbol((b0 % 4) * 16 + b1 / 16),
                base64_symbol((b1 % 16) * 4 + b2 / 64),
                base64_symbol(b2 % 64),
            ] + base64_encoded(b.skip(3))
        }
    }
}

/// Calls `base64::Engine::encode` of the `base64` crate's `general_purpose::STANDARD`
/// engine. Claimed: the result is the padded standard Base64 encoding of the input,
/// as RFC 4648 defines it.
#[verifier::external_body]
fn base64_standard(bytes: &[u8]) -> (r: String)
    ensures
        r@ == base64_encoded(bytes@),
{
    base64::Engine::encode(&base64::engine::general_purpose::STANDARD, bytes)
}

/// Standard padded Base64 text of `bytes`.
pub fn to_base64(bytes: &[u8]) -> (r: String)
    ensures
        r@ == base64_encoded(bytes@),
{
    base64_standard(bytes)
}

} // verus!
