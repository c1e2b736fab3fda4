//! Turning decoded pixels into image files.

use crate::error::Error;
use crate::levels::Level;
use vstd::prelude::*;

verus! {

/// The file that the `png` crate makes of pixels with four bytes each, or what it
/// says where it makes none.
pub uninterp spec fn png_file(width: u32, height: u32, rgba: Seq<u8>) -> Result<
    Seq<u8>,
    Seq<char>,
>;

/// How many bytes the pixels of an image take, with four bytes each.
pub open spec fn pixel_bytes(width: u32, height: u32) -> int {
    width as int * height as int * 4
}

/// Whether an image has pixels and all of them are given.
pub open spec fn encodes(width: u32, height: u32, rgba: Seq<u8>) -> bool {
    width > 0 && height > 0 && rgba.len() == pixel_bytes(width, height)
}

/// The model of a file, or of what is said where there is none.
pub open spec fn file_model(file: Result<Vec<u8>, String>) -> Result<Seq<u8>, Seq<char>> {
    match file {
        Ok(bytes) => Ok(bytes@),
        Err(text) => Err(text@),
    }
}

/// Calls `png::Encoder` with the colour type `Rgba` and the depth `Eight`: it writes
/// the header and the pixels into memory. What comes of it is a function of the
/// size and the pixels. There is a file exactly if the image has pixels and all of
/// them are given; else the text is that of the `EncodingError`.
///
/// The encoder multiplies the size out, so it has to fit. It also counts the zeros
/// of a row in 32 bits, so a row and the byte in front of it have to fit too.
#[verifier::external_body]
fn write_png(width: u32, height: u32, rgba: &[u8]) -> (file: Result<Vec<u8>, String>)
    requires
        pixel_bytes(width, height) <= usize::MAX,
        width as int * 4 < u32::MAX,
    ensures
        file_model(file) == png_file(width, height, rgba@),
        (file is Ok) == encodes(width, height, rgba@),
{
    let mut bytes = Vec::new();
    let mut encoder = png::Encoder::new(&mut bytes, width, height);
    encoder.set_color(png::ColorType::Rgba);
    encoder.set_depth(png::BitDepth::Eight);
    let mut writer = match encoder.write_header() {
        Ok(writer) => writer,
        Err(error) => return Err(error.to_string()),
    };
    let written = writer.write_image_data(rgba);
    drop(writer);
    match written {
        Ok(()) => Ok(bytes),
        Err(error) => Err(error.to_string()),
    }
}

/// How many bytes the pixels of a level take once they are decoded, if that can be
/// counted.
pub fn rgba_len(level: &Level) -> (len: Option<usize>)
    ensures
        match len {
            Some(len) => len == pixel_bytes(level.width, level.height),
            None => pixel_bytes(level.width, level.height) > usize::MAX,
        },
{
    let width = level.width as u128;
    let height = level.height as u128;
    proof {
        assert(width * height * 4 <= u128::MAX) by (nonlinear_arith)
            requires
                width <= u32::MAX,
                height <= u32::MAX,
        ;
        assert(width * height <= u128::MAX) by (nonlinear_arith)
            requires
                width <= u32::MAX,
                height <= u32::MAX,
        ;
    }
    let len: u128 = width * height * 4;
    if len <= usize::MAX as u128 {
        Some(len as usize)
    } else {
        None
    }
}

/// Whether the encoder can take a row of a level.
pub fn row_fits(level: &Level) -> (fits: bool)
    ensures
        fits == (level.width as int * 4 < u32::MAX),
{
    level.width as u64 * 4 < u32::MAX as u64
}

/// The image file of a decoded level. It comes to be exactly if the level has
/// pixels and all of them are given.
pub fn encode_level(level: &Level, rgba: &Vec<u8>) -> (file: Result<Vec<u8>, Error>)
    requires
        pixel_bytes(level.width, level.height) <= usize::MAX,
        level.width as int * 4 < u32::MAX,
    ensures
        match file {
            Ok(bytes) => png_file(level.width, level.height, rgba@) == file_model(Ok(bytes)),
            Err(error) => png_file(level.width, level.height, rgba@) == file_model(Err(error.0)),
        },
        (file is Ok) == encodes(level.width, level.height, rgba@),
{
    match write_png(level.width, level.height, rgba.as_slice()) {
        Ok(bytes) => Ok(bytes),
        Err(text) => Err(Error(text)),
    }
}

/// A picture without columns has no bytes, and each column takes four bytes in each row.
pub proof fn law_four_bytes_for_each_pixel(width: u32, height: u32)
    requires
        width < u32::MAX,
    ensures
        pixel_bytes(0, height) == 0,
        pixel_bytes((width + 1) as u32, height) == pixel_bytes(width, height) + 4 * height,
        pixel_bytes(width, height) == pixel_bytes(height, width),
{
    let w = width as int;
    let h = height as int;
    assert((w + 1) * h * 4 == w * h * 4 + 4 * h) by (nonlinear_arith);
    assert(w * h * 4 == h * w * 4) by (nonlinear_arith);
    assert(0 * h * 4 == 0) by (nonlinear_arith);
}

/// Pixels can be encoded exactly if there are as many as the picture has, and it has any.
pub proof fn law_what_can_be_encoded(width: u32, height: u32, rgba: Seq<u8>)
    ensures
        !encodes(0, height, rgba),
        !encodes(width, 0, rgba),
        width > 0 && height > 0 ==> (encodes(width, height, rgba) <==> rgba.len() == pixel_bytes(
            width,
            height,
        )),
{
}

} // verus!
