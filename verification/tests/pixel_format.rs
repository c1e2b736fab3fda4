use kfc_tools::pixel_format::{pixel_format_from_u32, PixelFormat, PIXEL_FORMAT_COUNT};

#[test]
fn numbers_stand_for_formats() {
    assert_eq!(pixel_format_from_u32(0), Some(PixelFormat::Undefined));
    assert_eq!(pixel_format_from_u32(1), Some(PixelFormat::R4G4_unorm_pack8));
    assert_eq!(pixel_format_from_u32(9), Some(PixelFormat::R8_unorm));
    assert_eq!(pixel_format_from_u32(37), Some(PixelFormat::R8G8B8A8_unorm));
    assert_eq!(pixel_format_from_u32(70), Some(PixelFormat::R16_unorm));
    assert_eq!(pixel_format_from_u32(131), Some(PixelFormat::BC1_RGB_unorm_block));
    assert_eq!(pixel_format_from_u32(145), Some(PixelFormat::BC7_unorm_block));
    assert_eq!(pixel_format_from_u32(146), Some(PixelFormat::BC7_srgb_block));
}

#[test]
fn numbers_behind_the_last_format_stand_for_none() {
    assert_eq!(PIXEL_FORMAT_COUNT, 147);
    assert_eq!(pixel_format_from_u32(147), None);
    assert_eq!(pixel_format_from_u32(u32::MAX), None);
}

#[test]
fn no_two_numbers_stand_for_the_same_format() {
    let formats: Vec<PixelFormat> =
        (0..PIXEL_FORMAT_COUNT).map(|n| pixel_format_from_u32(n).unwrap()).collect();
    for i in 0..formats.len() {
        for j in 0..i {
            assert_ne!(formats[i], formats[j]);
        }
    }
}
