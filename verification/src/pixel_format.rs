//! The pixel formats of images, and the numbers that stand for them.

use vstd::prelude::*;

verus! {

/// The format of the pixels of an image.
#[allow(non_camel_case_types)]
#[derive(Clone, Copy, Debug, PartialEq, Eq, Structural)]
pub enum PixelFormat {
    Undefined,
    R4G4_unorm_pack8,
    R4G4B4A4_unorm_pack16,
    B4G4R4A4_unorm_pack16,
    R5G6B5_unorm_pack16,
    B5G6R5_unorm_pack16,
    R5G5B5A1_unorm_pack16,
    B5G5R5A1_unorm_pack16,
    A1R5G5B5_unorm_pack16,
    R8_unorm,
    R8_snorm,
    R8_uscaled,
    R8_sscaled,
    R8_uint,
    R8_sint,
    R8_srgb,
    R8G8_unorm,
    R8G8_snorm,
    R8G8_uscaled,
    R8G8_sscaled,
    R8G8_uint,
    R8G8_sint,
    R8G8_srgb,
    R8G8B8_unorm,
    R8G8B8_snorm,
    R8G8B8_uscaled,
    R8G8B8_sscaled,
    R8G8B8_uint,
    R8G8B8_sint,
    R8G8B8_srgb,
    B8G8R8_unorm,
    B8G8R8_snorm,
    B8G8R8_uscaled,
    B8G8R8_sscaled,
    B8G8R8_uint,
    B8G8R8_sint,
    B8G8R8_srgb,
    R8G8B8A8_unorm,
    R8G8B8A8_snorm,
    R8G8B8A8_uscaled,
    R8G8B8A8_sscaled,
    R8G8B8A8_uint,
    R8G8B8A8_sint,
    R8G8B8A8_srgb,
    B8G8R8A8_unorm,
    B8G8R8A8_snorm,
    B8G8R8A8_uscaled,
    B8G8R8A8_sscaled,
    B8G8R8A8_uint,
    B8G8R8A8_sint,
    B8G8R8A8_srgb,
    A8B8G8R8_unorm_pack32,
    A8B8G8R8_snorm_pack32,
    A8B8G8R8_uscaled_pack32,
    A8B8G8R8_sscaled_pack32,
    A8B8G8R8_uint_pack32,
    A8B8G8R8_sint_pack32,
    A8B8G8R8_srgb_pack32,
    A2R10G10B10_unorm_pack32,
    A2R10G10B10_snorm_pack32,
    A2R10G10B10_uscaled_pack32,
    A2R10G10B10_sscaled_pack32,
    A2R10G10B10_uint_pack32,
    A2R10G10B10_sint_pack32,
    A2B10G10R10_unorm_pack32,
    A2B10G10R10_snorm_pack32,
    A2B10G10R10_uscaled_pack32,
    A2B10G10R10_sscaled_pack32,
    A2B10G10R10_uint_pack32,
    A2B10G10R10_sint_pack32,
    R16_unorm,
    R16_snorm,
    R16_uscaled,
    R16_sscaled,
    R16_uint,
    R16_sint,
    R16_sfloat,
    R16G16_unorm,
    R16G16_snorm,
    R16G16_uscaled,
    R16G16_sscaled,
    R16G16_uint,
    R16G16_sint,
    R16G16_sfloat,
    R16G16B16_unorm,
    R16G16B16_snorm,
    R16G16B16_uscaled,
    R16G16B16_sscaled,
    R16G16B16_uint,
    R16G16B16_sint,
    R16G16B16_sfloat,
    R16G16B16A16_unorm,
    R16G16B16A16_snorm,
    R16G16B16A16_uscaled,
    R16G16B16A16_sscaled,
    R16G16B16A16_uint,
    R16G16B16A16_sint,
    R16G16B16A16_sfloat,
    R32_uint,
    R32_sint,
    R32_sfloat,
    R32G32_uint,
    R32G32_sint,
    R32G32_sfloat,
    R32G32B32_uint,
    R32G32B32_sint,
    R32G32B32_sfloat,
    R32G32B32A32_uint,
    R32G32B32A32_sint,
    R32G32B32A32_sfloat,
    R64_uint,
    R64_sint,
    R64_sfloat,
    R64G64_uint,
    R64G64_sint,
    R64G64_sfloat,
    R64G64B64_uint,
    R64G64B64_sint,
    R64G64B64_sfloat,
    R64G64B64A64_uint,
    R64G64B64A64_sint,
    R64G64B64A64_sfloat,
    B10G11R11_ufloat_pack32,
    E5B9G9R9_ufloat_pack32,
    D16_unorm,
    X8_D24_unorm_pack32,
    D32_sfloat,
    S8_uint,
    D16_unorm_S8_uint,
    D24_unorm_S8_uint,
    D32_sfloat_S8_uint,
    BC1_RGB_unorm_block,
    BC1_RGB_srgb_block,
    BC1_RGBA_unorm_block,
    BC1_RGBA_srgb_block,
    BC2_unorm_block,
    BC2_srgb_block,
    BC3_unorm_block,
    BC3_srgb_block,
    BC4_unorm_block,
    BC4_snorm_block,
    BC5_unorm_block,
    BC5_snorm_block,
    BC6H_ufloat_block,
    BC6H_sfloat_block,
    BC7_unorm_block,
    BC7_srgb_block,
}

/// How many pixel formats there are.
pub const PIXEL_FORMAT_COUNT: u32 = 147;

/// The number that stands for a format: its position in the order of the declaration.
pub open spec fn ordinal(format: PixelFormat) -> int {
    match format {
        PixelFormat::Undefined => 0,
        PixelFormat::R4G4_unorm_pack8 => 1,
        PixelFormat::R4G4B4A4_unorm_pack16 => 2,
        PixelFormat::B4G4R4A4_unorm_pack16 => 3,
        PixelFormat::R5G6B5_unorm_pack16 => 4,
        PixelFormat::B5G6R5_unorm_pack16 => 5,
        PixelFormat::R5G5B5A1_unorm_pack16 => 6,
        PixelFormat::B5G5R5A1_unorm_pack16 => 7,
        PixelFormat::A1R5G5B5_unorm_pack16 => 8,
        PixelFormat::R8_unorm => 9,
        PixelFormat::R8_snorm => 10,
        PixelFormat::R8_uscaled => 11,
        PixelFormat::R8_sscaled => 12,
        PixelFormat::R8_uint => 13,
        PixelFormat::R8_sint => 14,
        PixelFormat::R8_srgb => 15,
        PixelFormat::R8G8_unorm => 16,
        PixelFormat::R8G8_snorm => 17,
        PixelFormat::R8G8_uscaled => 18,
        PixelFormat::R8G8_sscaled => 19,
        PixelFormat::R8G8_uint => 20,
        PixelFormat::R8G8_sint => 21,
        PixelFormat::R8G8_srgb => 22,
        PixelFormat::R8G8B8_unorm => 23,
        PixelFormat::R8G8B8_snorm => 24,
        PixelFormat::R8G8B8_uscaled => 25,
        PixelFormat::R8G8B8_sscaled => 26,
        PixelFormat::R8G8B8_uint => 27,
        PixelFormat::R8G8B8_sint => 28,
        PixelFormat::R8G8B8_srgb => 29,
        PixelFormat::B8G8R8_unorm => 30,
        PixelFormat::B8G8R8_snorm => 31,
        PixelFormat::B8G8R8_uscaled => 32,
        PixelFormat::B8G8R8_sscaled => 33,
        PixelFormat::B8G8R8_uint => 34,
        PixelFormat::B8G8R8_sint => 35,
        PixelFormat::B8G8R8_srgb => 36,
        PixelFormat::R8G8B8A8_unorm => 37,
        PixelFormat::R8G8B8A8_snorm => 38,
        PixelFormat::R8G8B8A8_uscaled => 39,
        PixelFormat::R8G8B8A8_sscaled => 40,
        PixelFormat::R8G8B8A8_uint => 41,
        PixelFormat::R8G8B8A8_sint => 42,
        PixelFormat::R8G8B8A8_srgb => 43,
        PixelFormat::B8G8R8A8_unorm => 44,
        PixelFormat::B8G8R8A8_snorm => 45,
        PixelFormat::B8G8R8A8_uscaled => 46,
        PixelFormat::B8G8R8A8_sscaled => 47,
        PixelFormat::B8G8R8A8_uint => 48,
        PixelFormat::B8G8R8A8_sint => 49,
        PixelFormat::B8G8R8A8_srgb => 50,
        PixelFormat::A8B8G8R8_unorm_pack32 => 51,
        PixelFormat::A8B8G8R8_snorm_pack32 => 52,
        PixelFormat::A8B8G8R8_uscaled_pack32 => 53,
        PixelFormat::A8B8G8R8_sscaled_pack32 => 54,
        PixelFormat::A8B8G8R8_uint_pack32 => 55,
        PixelFormat::A8B8G8R8_sint_pack32 => 56,
        PixelFormat::A8B8G8R8_srgb_pack32 => 57,
        PixelFormat::A2R10G10B10_unorm_pack32 => 58,
        PixelFormat::A2R10G10B10_snorm_pack32 => 59,
        PixelFormat::A2R10G10B10_uscaled_pack32 => 60,
        PixelFormat::A2R10G10B10_sscaled_pack32 => 61,
        PixelFormat::A2R10G10B10_uint_pack32 => 62,
        PixelFormat::A2R10G10B10_sint_pack32 => 63,
        PixelFormat::A2B10G10R10_unorm_pack32 => 64,
        PixelFormat::A2B10G10R10_snorm_pack32 => 65,
        PixelFormat::A2B10G10R10_uscaled_pack32 => 66,
        PixelFormat::A2B10G10R10_sscaled_pack32 => 67,
        PixelFormat::A2B10G10R10_uint_pack32 => 68,
        PixelFormat::A2B10G10R10_sint_pack32 => 69,
        PixelFormat::R16_unorm => 70,
        PixelFormat::R16_snorm => 71,
        PixelFormat::R16_uscaled => 72,
        PixelFormat::R16_sscaled => 73,
        PixelFormat::R16_uint => 74,
        PixelFormat::R16_sint => 75,
        PixelFormat::R16_sfloat => 76,
        PixelFormat::R16G16_unorm => 77,
        PixelFormat::R16G16_snorm => 78,
        PixelFormat::R16G16_uscaled => 79,
        PixelFormat::R16G16_sscaled => 80,
        PixelFormat::R16G16_uint => 81,
        PixelFormat::R16G16_sint => 82,
        PixelFormat::R16G16_sfloat => 83,
        PixelFormat::R16G16B16_unorm => 84,
        PixelFormat::R16G16B16_snorm => 85,
        PixelFormat::R16G16B16_uscaled => 86,
        PixelFormat::R16G16B16_sscaled => 87,
        PixelFormat::R16G16B16_uint => 88,
        PixelFormat::R16G16B16_sint => 89,
        PixelFormat::R16G16B16_sfloat => 90,
        PixelFormat::R16G16B16A16_unorm => 91,
        PixelFormat::R16G16B16A16_snorm => 92,
        PixelFormat::R16G16B16A16_uscaled => 93,
        PixelFormat::R16G16B16A16_sscaled => 94,
        PixelFormat::R16G16B16A16_uint => 95,
        PixelFormat::R16G16B16A16_sint => 96,
        PixelFormat::R16G16B16A16_sfloat => 97,
        PixelFormat::R32_uint => 98,
        PixelFormat::R32_sint => 99,
        PixelFormat::R32_sfloat => 100,
        PixelFormat::R32G32_uint => 101,
        PixelFormat::R32G32_sint => 102,
        PixelFormat::R32G32_sfloat => 103,
        PixelFormat::R32G32B32_uint => 104,
        PixelFormat::R32G32B32_sint => 105,
        PixelFormat::R32G32B32_sfloat => 106,
        PixelFormat::R32G32B32A32_uint => 107,
        PixelFormat::R32G32B32A32_sint => 108,
        PixelFormat::R32G32B32A32_sfloat => 109,
        PixelFormat::R64_uint => 110,
        PixelFormat::R64_sint => 111,
        PixelFormat::R64_sfloat => 112,
        PixelFormat::R64G64_uint => 113,
        PixelFormat::R64G64_sint => 114,
        PixelFormat::R64G64_sfloat => 115,
        PixelFormat::R64G64B64_uint => 116,
        PixelFormat::R64G64B64_sint => 117,
        PixelFormat::R64G64B64_sfloat => 118,
        PixelFormat::R64G64B64A64_uint => 119,
        PixelFormat::R64G64B64A64_sint => 120,
        PixelFormat::R64G64B64A64_sfloat => 121,
        PixelFormat::B10G11R11_ufloat_pack32 => 122,
        PixelFormat::E5B9G9R9_ufloat_pack32 => 123,
        PixelFormat::D16_unorm => 124,
        PixelFormat::X8_D24_unorm_pack32 => 125,
        PixelFormat::D32_sfloat => 126,
        PixelFormat::S8_uint => 127,
        PixelFormat::D16_unorm_S8_uint => 128,
        PixelFormat::D24_unorm_S8_uint => 129,
        PixelFormat::D32_sfloat_S8_uint => 130,
        PixelFormat::BC1_RGB_unorm_block => 131,
        PixelFormat::BC1_RGB_srgb_block => 132,
        PixelFormat::BC1_RGBA_unorm_block => 133,
        PixelFormat::BC1_RGBA_srgb_block => 134,
        PixelFormat::BC2_unorm_block => 135,
        PixelFormat::BC2_srgb_block => 136,
        PixelFormat::BC3_unorm_block => 137,
        PixelFormat::BC3_srgb_block => 138,
        PixelFormat::BC4_unorm_block => 139,
        PixelFormat::BC4_snorm_block => 140,
        PixelFormat::BC5_unorm_block => 141,
        PixelFormat::BC5_snorm_block => 142,
        PixelFormat::BC6H_ufloat_block => 143,
        PixelFormat::BC6H_sfloat_block => 144,
        PixelFormat::BC7_unorm_block => 145,
        PixelFormat::BC7_srgb_block => 146,
    }
}

/// The format that a number stands for, if it stands for one.
pub open spec fn format_of(value: u32) -> Option<PixelFormat> {
    if value < PIXEL_FORMAT_COUNT {
        Some(choose|format: PixelFormat| #[trigger] ordinal(format) == value)
    } else {
        None
    }
}

/// The format that a number stands for, if it stands for one.
pub fn pixel_format_from_u32(value: u32) -> (format: Option<PixelFormat>)
    ensures
        match format {
            Some(format) => ordinal(format) == value,
            None => value >= PIXEL_FORMAT_COUNT,
        },
        format == format_of(value),
{
    let format = match value {
        0 => PixelFormat::Undefined,
        1 => PixelFormat::R4G4_unorm_pack8,
        2 => PixelFormat::R4G4B4A4_unorm_pack16,
        3 => PixelFormat::B4G4R4A4_unorm_pack16,
        4 => PixelFormat::R5G6B5_unorm_pack16,
        5 => PixelFormat::B5G6R5_unorm_pack16,
        6 => PixelFormat::R5G5B5A1_unorm_pack16,
        7 => PixelFormat::B5G5R5A1_unorm_pack16,
        8 => PixelFormat::A1R5G5B5_unorm_pack16,
        9 => PixelFormat::R8_unorm,
        10 => PixelFormat::R8_snorm,
        11 => PixelFormat::R8_uscaled,
        12 => PixelFormat::R8_sscaled,
        13 => PixelFormat::R8_uint,
        14 => PixelFormat::R8_sint,
        15 => PixelFormat::R8_srgb,
        16 => PixelFormat::R8G8_unorm,
        17 => PixelFormat::R8G8_snorm,
        18 => PixelFormat::R8G8_uscaled,
        19 => PixelFormat::R8G8_sscaled,
        20 => PixelFormat::R8G8_uint,
        21 => PixelFormat::R8G8_sint,
        22 => PixelFormat::R8G8_srgb,
        23 => PixelFormat::R8G8B8_unorm,
        24 => PixelFormat::R8G8B8_snorm,
        25 => PixelFormat::R8G8B8_uscaled,
        26 => PixelFormat::R8G8B8_sscaled,
        27 => PixelFormat::R8G8B8_uint,
        28 => PixelFormat::R8G8B8_sint,
        29 => PixelFormat::R8G8B8_srgb,
        30 => PixelFormat::B8G8R8_unorm,
        31 => PixelFormat::B8G8R8_snorm,
        32 => PixelFormat::B8G8R8_uscaled,
        33 => PixelFormat::B8G8R8_sscaled,
        34 => PixelFormat::B8G8R8_uint,
        35 => PixelFormat::B8G8R8_sint,
        36 => PixelFormat::B8G8R8_srgb,
        37 => PixelFormat::R8G8B8A8_unorm,
        38 => PixelFormat::R8G8B8A8_snorm,
        39 => PixelFormat::R8G8B8A8_uscaled,
        40 => PixelFormat::R8G8B8A8_sscaled,
        41 => PixelFormat::R8G8B8A8_uint,
        42 => PixelFormat::R8G8B8A8_sint,
        43 => PixelFormat::R8G8B8A8_srgb,
        44 => PixelFormat::B8G8R8A8_unorm,
        45 => PixelFormat::B8G8R8A8_snorm,
        46 => PixelFormat::B8G8R8A8_uscaled,
        47 => PixelFormat::B8G8R8A8_sscaled,
        48 => PixelFormat::B8G8R8A8_uint,
        49 => PixelFormat::B8G8R8A8_sint,
        50 => PixelFormat::B8G8R8A8_srgb,
        51 => PixelFormat::A8B8G8R8_unorm_pack32,
        52 => PixelFormat::A8B8G8R8_snorm_pack32,
        53 => PixelFormat::A8B8G8R8_uscaled_pack32,
        54 => PixelFormat::A8B8G8R8_sscaled_pack32,
        55 => PixelFormat::A8B8G8R8_uint_pack32,
        56 => PixelFormat::A8B8G8R8_sint_pack32,
        57 => PixelFormat::A8B8G8R8_srgb_pack32,
        58 => PixelFormat::A2R10G10B10_unorm_pack32,
        59 => PixelFormat::A2R10G10B10_snorm_pack32,
        60 => PixelFormat::A2R10G10B10_uscaled_pack32,
        61 => PixelFormat::A2R10G10B10_sscaled_pack32,
        62 => PixelFormat::A2R10G10B10_uint_pack32,
        63 => PixelFormat::A2R10G10B10_sint_pack32,
        64 => PixelFormat::A2B10G10R10_unorm_pack32,
        65 => PixelFormat::A2B10G10R10_snorm_pack32,
        66 => PixelFormat::A2B10G10R10_uscaled_pack32,
        67 => PixelFormat::A2B10G10R10_sscaled_pack32,
        68 => PixelFormat::A2B10G10R10_uint_pack32,
        69 => PixelFormat::A2B10G10R10_sint_pack32,
        70 => PixelFormat::R16_unorm,
        71 => PixelFormat::R16_snorm,
        72 => PixelFormat::R16_uscaled,
        73 => PixelFormat::R16_sscaled,
        74 => PixelFormat::R16_uint,
        75 => PixelFormat::R16_sint,
        76 => PixelFormat::R16_sfloat,
        77 => PixelFormat::R16G16_unorm,
        78 => PixelFormat::R16G16_snorm,
        79 => PixelFormat::R16G16_uscaled,
        80 => PixelFormat::R16G16_sscaled,
        81 => PixelFormat::R16G16_uint,
        82 => PixelFormat::R16G16_sint,
        83 => PixelFormat::R16G16_sfloat,
        84 => PixelFormat::R16G16B16_unorm,
        85 => PixelFormat::R16G16B16_snorm,
        86 => PixelFormat::R16G16B16_uscaled,
        87 => PixelFormat::R16G16B16_sscaled,
        88 => PixelFormat::R16G16B16_uint,
        89 => PixelFormat::R16G16B16_sint,
        90 => PixelFormat::R16G16B16_sfloat,
        91 => PixelFormat::R16G16B16A16_unorm,
        92 => PixelFormat::R16G16B16A16_snorm,
        93 => PixelFormat::R16G16B16A16_uscaled,
        94 => PixelFormat::R16G16B16A16_sscaled,
        95 => PixelFormat::R16G16B16A16_uint,
        96 => PixelFormat::R16G16B16A16_sint,
        97 => PixelFormat::R16G16B16A16_sfloat,
        98 => PixelFormat::R32_uint,
        99 => PixelFormat::R32_sint,
        100 => PixelFormat::R32_sfloat,
        101 => PixelFormat::R32G32_uint,
        102 => PixelFormat::R32G32_sint,
        103 => PixelFormat::R32G32_sfloat,
        104 => PixelFormat::R32G32B32_uint,
        105 => PixelFormat::R32G32B32_sint,
        106 => PixelFormat::R32G32B32_sfloat,
        107 => PixelFormat::R32G32B32A32_uint,
        108 => PixelFormat::R32G32B32A32_sint,
        109 => PixelFormat::R32G32B32A32_sfloat,
        110 => PixelFormat::R64_uint,
        111 => PixelFormat::R64_sint,
        112 => PixelFormat::R64_sfloat,
        113 => PixelFormat::R64G64_uint,
        114 => PixelFormat::R64G64_sint,
        115 => PixelFormat::R64G64_sfloat,
        116 => PixelFormat::R64G64B64_uint,
        117 => PixelFormat::R64G64B64_sint,
        118 => PixelFormat::R64G64B64_sfloat,
        119 => PixelFormat::R64G64B64A64_uint,
        120 => PixelFormat::R64G64B64A64_sint,
        121 => PixelFormat::R64G64B64A64_sfloat,
        122 => PixelFormat::B10G11R11_ufloat_pack32,
        123 => PixelFormat::E5B9G9R9_ufloat_pack32,
        124 => PixelFormat::D16_unorm,
        125 => PixelFormat::X8_D24_unorm_pack32,
        126 => PixelFormat::D32_sfloat,
        127 => PixelFormat::S8_uint,
        128 => PixelFormat::D16_unorm_S8_uint,
        129 => PixelFormat::D24_unorm_S8_uint,
        130 => PixelFormat::D32_sfloat_S8_uint,
        131 => PixelFormat::BC1_RGB_unorm_block,
        132 => PixelFormat::BC1_RGB_srgb_block,
        133 => PixelFormat::BC1_RGBA_unorm_block,
        134 => PixelFormat::BC1_RGBA_srgb_block,
        135 => PixelFormat::BC2_unorm_block,
        136 => PixelFormat::BC2_srgb_block,
        137 => PixelFormat::BC3_unorm_block,
        138 => PixelFormat::BC3_srgb_block,
        139 => PixelFormat::BC4_unorm_block,
        140 => PixelFormat::BC4_snorm_block,
        141 => PixelFormat::BC5_unorm_block,
        142 => PixelFormat::BC5_snorm_block,
        143 => PixelFormat::BC6H_ufloat_block,
        144 => PixelFormat::BC6H_sfloat_block,
        145 => PixelFormat::BC7_unorm_block,
        146 => PixelFormat::BC7_srgb_block,
        _ => return None,
    };
    proof {
        law_ordinals_are_distinct(format, format_of(value)->0);
    }
    Some(format)
}

/// Every format has a number of its own, and it lies below the count. No two
/// numbers are read as the same format, and no number as two formats.
pub proof fn law_ordinals_are_distinct(a: PixelFormat, b: PixelFormat)
    ensures
        0 <= ordinal(a) < PIXEL_FORMAT_COUNT,
        ordinal(a) == ordinal(b) ==> a == b,
{
}

/// The number of a format leads back to the format, and to no other.
pub proof fn law_number_leads_back(format: PixelFormat)
    ensures
        format_of(ordinal(format) as u32) == Some(format),
{
    law_ordinals_are_distinct(format, format_of(ordinal(format) as u32)->0);
}

/// Every number below the count stands for a format, and is the number of that format.
pub proof fn law_every_number_stands_for_a_format(value: u32)
    requires
        value < PIXEL_FORMAT_COUNT,
    ensures
        format_of(value) is Some,
        ordinal(format_of(value)->0) == value,
{
    law_numbers_of_formats();
    assert(exists|format: PixelFormat| #[trigger] ordinal(format) == value);
}

/// The number that stands for each format. Each of them is read as that format, as
/// the number of a format leads back to it.
pub proof fn law_numbers_of_formats()
    ensures
        ordinal(PixelFormat::Undefined) == 0,
        ordinal(PixelFormat::R4G4_unorm_pack8) == 1,
        ordinal(PixelFormat::R4G4B4A4_unorm_pack16) == 2,
        ordinal(PixelFormat::B4G4R4A4_unorm_pack16) == 3,
        ordinal(PixelFormat::R5G6B5_unorm_pack16) == 4,
        ordinal(PixelFormat::B5G6R5_unorm_pack16) == 5,
        ordinal(PixelFormat::R5G5B5A1_unorm_pack16) == 6,
        ordinal(PixelFormat::B5G5R5A1_unorm_pack16) == 7,
        ordinal(PixelFormat::A1R5G5B5_unorm_pack16) == 8,
        ordinal(PixelFormat::R8_unorm) == 9,
        ordinal(PixelFormat::R8_snorm) == 10,
        ordinal(PixelFormat::R8_uscaled) == 11,
        ordinal(PixelFormat::R8_sscaled) == 12,
        ordinal(PixelFormat::R8_uint) == 13,
        ordinal(PixelFormat::R8_sint) == 14,
        ordinal(PixelFormat::R8_srgb) == 15,
        ordinal(PixelFormat::R8G8_unorm) == 16,
        ordinal(PixelFormat::R8G8_snorm) == 17,
        ordinal(PixelFormat::R8G8_uscaled) == 18,
        ordinal(PixelFormat::R8G8_sscaled) == 19,
        ordinal(PixelFormat::R8G8_uint) == 20,
        ordinal(PixelFormat::R8G8_sint) == 21,
        ordinal(PixelFormat::R8G8_srgb) == 22,
        ordinal(PixelFormat::R8G8B8_unorm) == 23,
        ordinal(PixelFormat::R8G8B8_snorm) == 24,
        ordinal(PixelFormat::R8G8B8_uscaled) == 25,
        ordinal(PixelFormat::R8G8B8_sscaled) == 26,
        ordinal(PixelFormat::R8G8B8_uint) == 27,
        ordinal(PixelFormat::R8G8B8_sint) == 28,
        ordinal(PixelFormat::R8G8B8_srgb) == 29,
        ordinal(PixelFormat::B8G8R8_unorm) == 30,
        ordinal(PixelFormat::B8G8R8_snorm) == 31,
        ordinal(PixelFormat::B8G8R8_uscaled) == 32,
        ordinal(PixelFormat::B8G8R8_sscaled) == 33,
        ordinal(PixelFormat::B8G8R8_uint) == 34,
        ordinal(PixelFormat::B8G8R8_sint) == 35,
        ordinal(PixelFormat::B8G8R8_srgb) == 36,
        ordinal(PixelFormat::R8G8B8A8_unorm) == 37,
        ordinal(PixelFormat::R8G8B8A8_snorm) == 38,
        ordinal(PixelFormat::R8G8B8A8_uscaled) == 39,
        ordinal(PixelFormat::R8G8B8A8_sscaled) == 40,
        ordinal(PixelFormat::R8G8B8A8_uint) == 41,
        ordinal(PixelFormat::R8G8B8A8_sint) == 42,
        ordinal(PixelFormat::R8G8B8A8_srgb) == 43,
        ordinal(PixelFormat::B8G8R8A8_unorm) == 44,
        ordinal(PixelFormat::B8G8R8A8_snorm) == 45,
        ordinal(PixelFormat::B8G8R8A8_uscaled) == 46,
        ordinal(PixelFormat::B8G8R8A8_sscaled) == 47,
        ordinal(PixelFormat::B8G8R8A8_uint) == 48,
        ordinal(PixelFormat::B8G8R8A8_sint) == 49,
        ordinal(PixelFormat::B8G8R8A8_srgb) == 50,
        ordinal(PixelFormat::A8B8G8R8_unorm_pack32) == 51,
        ordinal(PixelFormat::A8B8G8R8_snorm_pack32) == 52,
        ordinal(PixelFormat::A8B8G8R8_uscaled_pack32) == 53,
        ordinal(PixelFormat::A8B8G8R8_sscaled_pack32) == 54,
        ordinal(PixelFormat::A8B8G8R8_uint_pack32) == 55,
        ordinal(PixelFormat::A8B8G8R8_sint_pack32) == 56,
        ordinal(PixelFormat::A8B8G8R8_srgb_pack32) == 57,
        ordinal(PixelFormat::A2R10G10B10_unorm_pack32) == 58,
        ordinal(PixelFormat::A2R10G10B10_snorm_pack32) == 59,
        ordinal(PixelFormat::A2R10G10B10_uscaled_pack32) == 60,
        ordinal(PixelFormat::A2R10G10B10_sscaled_pack32) == 61,
        ordinal(PixelFormat::A2R10G10B10_uint_pack32) == 62,
        ordinal(PixelFormat::A2R10G10B10_sint_pack32) == 63,
        ordinal(PixelFormat::A2B10G10R10_unorm_pack32) == 64,
        ordinal(PixelFormat::A2B10G10R10_snorm_pack32) == 65,
        ordinal(PixelFormat::A2B10G10R10_uscaled_pack32) == 66,
        ordinal(PixelFormat::A2B10G10R10_sscaled_pack32) == 67,
        ordinal(PixelFormat::A2B10G10R10_uint_pack32) == 68,
        ordinal(PixelFormat::A2B10G10R10_sint_pack32) == 69,
        ordinal(PixelFormat::R16_unorm) == 70,
        ordinal(PixelFormat::R16_snorm) == 71,
        ordinal(PixelFormat::R16_uscaled) == 72,
        ordinal(PixelFormat::R16_sscaled) == 73,
        ordinal(PixelFormat::R16_uint) == 74,
        ordinal(PixelFormat::R16_sint) == 75,
        ordinal(PixelFormat::R16_sfloat) == 76,
        ordinal(PixelFormat::R16G16_unorm) == 77,
        ordinal(PixelFormat::R16G16_snorm) == 78,
        ordinal(PixelFormat::R16G16_uscaled) == 79,
        ordinal(PixelFormat::R16G16_sscaled) == 80,
        ordinal(PixelFormat::R16G16_uint) == 81,
        ordinal(PixelFormat::R16G16_sint) == 82,
        ordinal(PixelFormat::R16G16_sfloat) == 83,
        ordinal(PixelFormat::R16G16B16_unorm) == 84,
        ordinal(PixelFormat::R16G16B16_snorm) == 85,
        ordinal(PixelFormat::R16G16B16_uscaled) == 86,
        ordinal(PixelFormat::R16G16B16_sscaled) == 87,
        ordinal(PixelFormat::R16G16B16_uint) == 88,
        ordinal(PixelFormat::R16G16B16_sint) == 89,
        ordinal(PixelFormat::R16G16B16_sfloat) == 90,
        ordinal(PixelFormat::R16G16B16A16_unorm) == 91,
        ordinal(PixelFormat::R16G16B16A16_snorm) == 92,
        ordinal(PixelFormat::R16G16B16A16_uscaled) == 93,
        ordinal(PixelFormat::R16G16B16A16_sscaled) == 94,
        ordinal(PixelFormat::R16G16B16A16_uint) == 95,
        ordinal(PixelFormat::R16G16B16A16_sint) == 96,
        ordinal(PixelFormat::R16G16B16A16_sfloat) == 97,
        ordinal(PixelFormat::R32_uint) == 98,
        ordinal(PixelFormat::R32_sint) == 99,
        ordinal(PixelFormat::R32_sfloat) == 100,
        ordinal(PixelFormat::R32G32_uint) == 101,
        ordinal(PixelFormat::R32G32_sint) == 102,
        ordinal(PixelFormat::R32G32_sfloat) == 103,
        ordinal(PixelFormat::R32G32B32_uint) == 104,
        ordinal(PixelFormat::R32G32B32_sint) == 105,
        ordinal(PixelFormat::R32G32B32_sfloat) == 106,
        ordinal(PixelFormat::R32G32B32A32_uint) == 107,
        ordinal(PixelFormat::R32G32B32A32_sint) == 108,
        ordinal(PixelFormat::R32G32B32A32_sfloat) == 109,
        ordinal(PixelFormat::R64_uint) == 110,
        ordinal(PixelFormat::R64_sint) == 111,
        ordinal(PixelFormat::R64_sfloat) == 112,
        ordinal(PixelFormat::R64G64_uint) == 113,
        ordinal(PixelFormat::R64G64_sint) == 114,
        ordinal(PixelFormat::R64G64_sfloat) == 115,
        ordinal(PixelFormat::R64G64B64_uint) == 116,
        ordinal(PixelFormat::R64G64B64_sint) == 117,
        ordinal(PixelFormat::R64G64B64_sfloat) == 118,
        ordinal(PixelFormat::R64G64B64A64_uint) == 119,
        ordinal(PixelFormat::R64G64B64A64_sint) == 120,
        ordinal(PixelFormat::R64G64B64A64_sfloat) == 121,
        ordinal(PixelFormat::B10G11R11_ufloat_pack32) == 122,
        ordinal(PixelFormat::E5B9G9R9_ufloat_pack32) == 123,
        ordinal(PixelFormat::D16_unorm) == 124,
        ordinal(PixelFormat::X8_D24_unorm_pack32) == 125,
        ordinal(PixelFormat::D32_sfloat) == 126,
        ordinal(PixelFormat::S8_uint) == 127,
        ordinal(PixelFormat::D16_unorm_S8_uint) == 128,
        ordinal(PixelFormat::D24_unorm_S8_uint) == 129,
        ordinal(PixelFormat::D32_sfloat_S8_uint) == 130,
        ordinal(PixelFormat::BC1_RGB_unorm_block) == 131,
        ordinal(PixelFormat::BC1_RGB_srgb_block) == 132,
        ordinal(PixelFormat::BC1_RGBA_unorm_block) == 133,
        ordinal(PixelFormat::BC1_RGBA_srgb_block) == 134,
        ordinal(PixelFormat::BC2_unorm_block) == 135,
        ordinal(PixelFormat::BC2_srgb_block) == 136,
        ordinal(PixelFormat::BC3_unorm_block) == 137,
        ordinal(PixelFormat::BC3_srgb_block) == 138,
        ordinal(PixelFormat::BC4_unorm_block) == 139,
        ordinal(PixelFormat::BC4_snorm_block) == 140,
        ordinal(PixelFormat::BC5_unorm_block) == 141,
        ordinal(PixelFormat::BC5_snorm_block) == 142,
        ordinal(PixelFormat::BC6H_ufloat_block) == 143,
        ordinal(PixelFormat::BC6H_sfloat_block) == 144,
        ordinal(PixelFormat::BC7_unorm_block) == 145,
        ordinal(PixelFormat::BC7_srgb_block) == 146,
{
}

/// The number of a format is its place in the declaration.
pub proof fn law_number_is_the_place(format: PixelFormat)
    ensures
        ordinal(format) == format as int,
{
}

/// The numbers below 147 stand for formats, and no others.
pub proof fn law_which_numbers_stand_for_formats(value: u32)
    ensures
        format_of(value) is Some <==> value < 147,
{
}

} // verus!
