//! What the fields of a resource say of the content that the resource refers to.

use crate::pixel_format::{
    format_of, law_every_number_stands_for_a_format, law_number_leads_back,
    law_ordinals_are_distinct, ordinal, pixel_format_from_u32, PixelFormat,
};
use crate::text::optional_text;
use crate::value::{
    as_number, as_text, lookup, lookup_either, ContentHash, Fields, Tree, Value,
};
use vstd::prelude::*;

verus! {

/// What is known of a content blob.
#[derive(Debug, PartialEq, Eq)]
pub enum ContentMetadata {
    /// The blob holds an image.
    Image {
        width: u32,
        height: u32,
        format: PixelFormat,
        level_count: u32,
        debug_name: Option<String>,
    },
    /// The blob holds a sound.
    Audio { channels: u16, sample_rate: u32, frame_count: u32, debug_name: Option<String> },
}

/// The model of what is known of a content blob.
#[verifier::ext_equal]
pub enum MetadataModel {
    Image {
        width: u32,
        height: u32,
        format: PixelFormat,
        level_count: u32,
        debug_name: Option<Seq<char>>,
    },
    Audio { channels: u16, sample_rate: u32, frame_count: u32, debug_name: Option<Seq<char>> },
}

impl View for ContentMetadata {
    type V = MetadataModel;

    open spec fn view(&self) -> MetadataModel {
        match *self {
            ContentMetadata::Image { width, height, format, level_count, debug_name } =>
                MetadataModel::Image {
                    width,
                    height,
                    format,
                    level_count,
                    debug_name: optional_text(debug_name),
                },
            ContentMetadata::Audio { channels, sample_rate, frame_count, debug_name } =>
                MetadataModel::Audio {
                    channels,
                    sample_rate,
                    frame_count,
                    debug_name: optional_text(debug_name),
                },
        }
    }
}

/// Whether metadata describes content that has a size: no image without pixels,
/// and no sound without channels, rate or frames.
pub open spec fn is_sized(metadata: MetadataModel) -> bool {
    match metadata {
        MetadataModel::Image { width, height, .. } => width > 0 && height > 0,
        MetadataModel::Audio { channels, sample_rate, frame_count, .. } => channels > 0
            && sample_rate > 0 && frame_count > 0,
    }
}

// ---------------------------------------------------------------------------
// Reading numbers
// ---------------------------------------------------------------------------

/// The lower 32 bits of a number.
pub open spec fn low32(number: Option<u64>) -> Option<u32> {
    match number {
        Some(number) => Some((number % 0x1_0000_0000) as u32),
        None => None,
    }
}

/// The lower 16 bits of a number.
pub open spec fn low16(number: Option<u64>) -> Option<u16> {
    match number {
        Some(number) => Some((number % 0x1_0000) as u16),
        None => None,
    }
}

/// The lower 32 bits of a number.
fn truncate32(number: Option<u64>) -> (low: Option<u32>)
    ensures
        low == low32(number),
{
    match number {
        Some(number) => Some((number % 0x1_0000_0000) as u32),
        None => None,
    }
}

/// The lower 16 bits of a number.
fn truncate16(number: Option<u64>) -> (low: Option<u16>)
    ensures
        low == low16(number),
{
    match number {
        Some(number) => Some((number % 0x1_0000) as u16),
        None => None,
    }
}

/// The number that the first of two fields that is there reads as.
fn number_of_either(fields: &Fields, name: &str, other: &str) -> (number: Option<u64>)
    ensures
        number == as_number(lookup_either(fields@, name@, other@)),
{
    match fields.get_either(name, other) {
        Some(value) => value.as_u64(),
        None => None,
    }
}

// ---------------------------------------------------------------------------
// Content hashes
// ---------------------------------------------------------------------------

/// The content hash that the fields of a data object spell, if all four are there
/// and are numbers.
pub open spec fn content_hash_of(data: Seq<(Seq<char>, Tree)>) -> Option<ContentHash> {
    let size = low32(as_number(lookup(data, "size"@)));
    let hash0 = low32(as_number(lookup(data, "hash0"@)));
    let hash1 = low32(as_number(lookup(data, "hash1"@)));
    let hash2 = low32(as_number(lookup(data, "hash2"@)));
    if size is Some && hash0 is Some && hash1 is Some && hash2 is Some {
        Some(
            ContentHash {
                size: size->0,
                hash0: hash0->0,
                hash1: hash1->0,
                hash2: hash2->0,
            },
        )
    } else {
        None
    }
}

/// The content hash that the fields of a data object spell.
pub fn extract_content_hash_from_data(data: &Fields) -> (hash: Option<ContentHash>)
    ensures
        hash == content_hash_of(data@),
{
    let size = truncate32(data.number("size"));
    let hash0 = truncate32(data.number("hash0"));
    let hash1 = truncate32(data.number("hash1"));
    let hash2 = truncate32(data.number("hash2"));
    match (size, hash0, hash1, hash2) {
        (Some(size), Some(hash0), Some(hash1), Some(hash2)) => Some(
            ContentHash { size, hash0, hash1, hash2 },
        ),
        _ => None,
    }
}

// ---------------------------------------------------------------------------
// Images
// ---------------------------------------------------------------------------

/// The width and the height that the fields of a texture give: those of the
/// fields `width` and `height` if both are numbers, else those of the fields `x`
/// and `y` of the structure `size`.
pub open spec fn image_size(texture: Seq<(Seq<char>, Tree)>) -> (Option<u32>, Option<u32>) {
    let width = low32(as_number(lookup(texture, "width"@)));
    let height = low32(as_number(lookup(texture, "height"@)));
    if width is Some && height is Some {
        (width, height)
    } else {
        match lookup(texture, "size"@) {
            Some(Tree::Struct(size)) => (
                low32(as_number(lookup(size, "x"@))),
                low32(as_number(lookup(size, "y"@))),
            ),
            _ => (None, None),
        }
    }
}

/// The number of levels that the fields of a texture give, which is one unless
/// they say otherwise.
pub open spec fn image_levels(texture: Seq<(Seq<char>, Tree)>) -> u32 {
    match low32(as_number(lookup_either(texture, "levelCount"@, "level_count"@))) {
        Some(levels) => levels,
        None => 1,
    }
}

/// The width, the height, the format and the number of levels that the fields of
/// a texture give, if the size and the format are given, the size is not zero, and
/// the format is known.
pub open spec fn image_shape(texture: Seq<(Seq<char>, Tree)>) -> Option<
    (u32, u32, PixelFormat, u32),
> {
    let (width, height) = image_size(texture);
    let format = match low32(as_number(lookup(texture, "format"@))) {
        Some(number) => format_of(number),
        None => None,
    };
    if width is Some && height is Some && width->0 > 0 && height->0 > 0 && format is Some {
        Some((width->0, height->0, format->0, image_levels(texture)))
    } else {
        None
    }
}

/// The width and the height that the fields of a texture give.
fn extract_image_size(texture: &Fields) -> (size: (Option<u32>, Option<u32>))
    ensures
        size == image_size(texture@),
{
    let width = truncate32(texture.number("width"));
    let height = truncate32(texture.number("height"));
    if width.is_some() && height.is_some() {
        return (width, height);
    }
    match texture.get("size") {
        Some(Value::Struct(size)) => (truncate32(size.number("x")), truncate32(size.number("y"))),
        _ => (None, None),
    }
}

/// The width, the height, the format and the number of levels that the fields of
/// a texture give.
pub fn extract_image_metadata(texture: &Fields) -> (shape: Option<(u32, u32, PixelFormat, u32)>)
    ensures
        shape == image_shape(texture@),
{
    let (width, height) = extract_image_size(texture);
    let format = truncate32(texture.number("format"));
    let level_count: u32 = match truncate32(
        number_of_either(texture, "levelCount", "level_count"),
    ) {
        Some(levels) => levels,
        None => 1,
    };
    match (width, height, format) {
        (Some(width), Some(height), Some(format)) => {
            if width > 0 && height > 0 {
                match pixel_format_from_u32(format) {
                    Some(format) => Some((width, height, format, level_count)),
                    None => None,
                }
            } else {
                None
            }
        },
        _ => None,
    }
}

/// The metadata of the image that the fields of a texture describe, under the
/// given name.
pub open spec fn image_metadata(
    texture: Seq<(Seq<char>, Tree)>,
    name: Option<Seq<char>>,
) -> Option<MetadataModel> {
    match image_shape(texture) {
        Some((width, height, format, level_count)) => Some(
            MetadataModel::Image { width, height, format, level_count, debug_name: name },
        ),
        None => None,
    }
}

/// The name that fields give to the content they describe.
pub open spec fn field_name(fields: Seq<(Seq<char>, Tree)>) -> Option<Seq<char>> {
    as_text(lookup_either(fields, "debugName"@, "debug_name"@))
}

/// The name that fields give to the content they describe.
pub fn extract_debug_name(fields: &Fields) -> (name: Option<String>)
    ensures
        optional_text(name) == field_name(fields@),
{
    match fields.get_either("debugName", "debug_name") {
        Some(value) => match value.as_string() {
            Some(text) => Some(text.clone()),
            None => None,
        },
        None => None,
    }
}

/// The metadata of the image that fields describe, under the name that they give.
pub open spec fn named_image(fields: Seq<(Seq<char>, Tree)>) -> Option<MetadataModel> {
    image_metadata(fields, field_name(fields))
}

/// The metadata of the image that fields describe, under the name that they give.
pub fn extract_named_image(fields: &Fields) -> (metadata: Option<ContentMetadata>)
    ensures
        match metadata {
            Some(metadata) => named_image(fields@) == Some(metadata@),
            None => named_image(fields@) is None,
        },
{
    match extract_image_metadata(fields) {
        Some((width, height, format, level_count)) => Some(
            ContentMetadata::Image {
                width,
                height,
                format,
                level_count,
                debug_name: extract_debug_name(fields),
            },
        ),
        None => None,
    }
}

// ---------------------------------------------------------------------------
// Sounds
// ---------------------------------------------------------------------------

/// The metadata of the sound that fields describe, under the name that they give,
/// if its channels, rate and frames are given and none of them is zero.
pub open spec fn named_audio(fields: Seq<(Seq<char>, Tree)>) -> Option<MetadataModel> {
    let channels = low16(as_number(lookup_either(fields, "channels"@, "channelCount"@)));
    let sample_rate = low32(as_number(lookup_either(fields, "sampleRate"@, "sample_rate"@)));
    let frame_count = low32(
        as_number(
            match lookup_either(fields, "frameCount"@, "frame_count"@) {
                Some(value) => Some(value),
                None => lookup(fields, "sampleCount"@),
            },
        ),
    );
    if channels is Some && sample_rate is Some && frame_count is Some && channels->0 > 0
        && sample_rate->0 > 0 && frame_count->0 > 0 {
        Some(
            MetadataModel::Audio {
                channels: channels->0,
                sample_rate: sample_rate->0,
                frame_count: frame_count->0,
                debug_name: field_name(fields),
            },
        )
    } else {
        None
    }
}

/// The metadata of the sound that fields describe, under the name that they give.
pub fn extract_named_audio(fields: &Fields) -> (metadata: Option<ContentMetadata>)
    ensures
        match metadata {
            Some(metadata) => named_audio(fields@) == Some(metadata@),
            None => named_audio(fields@) is None,
        },
{
    let channels = truncate16(number_of_either(fields, "channels", "channelCount"));
    let sample_rate = truncate32(number_of_either(fields, "sampleRate", "sample_rate"));
    let frames = match fields.get_either("frameCount", "frame_count") {
        Some(value) => Some(value),
        None => fields.get("sampleCount"),
    };
    let frame_count = truncate32(
        match frames {
            Some(value) => value.as_u64(),
            None => None,
        },
    );
    match (channels, sample_rate, frame_count) {
        (Some(channels), Some(sample_rate), Some(frame_count)) => {
            if channels > 0 && sample_rate > 0 && frame_count > 0 {
                Some(
                    ContentMetadata::Audio {
                        channels,
                        sample_rate,
                        frame_count,
                        debug_name: extract_debug_name(fields),
                    },
                )
            } else {
                None
            }
        },
        _ => None,
    }
}

/// Whatever fields describe has a size.
pub proof fn law_described_content_is_sized(fields: Seq<(Seq<char>, Tree)>, name: Option<Seq<char>>)
    ensures
        match image_metadata(fields, name) {
            Some(metadata) => is_sized(metadata) && metadata is Image,
            None => true,
        },
        match named_audio(fields) {
            Some(metadata) => is_sized(metadata) && metadata is Audio,
            None => true,
        },
{
}

// ---------------------------------------------------------------------------
// What the fields come to
// ---------------------------------------------------------------------------

/// Whether a field is there and holds a number.
pub open spec fn holds_number(
    fields: Seq<(Seq<char>, Tree)>,
    name: Seq<char>,
    number: u64,
) -> bool {
    lookup(fields, name) == Some(Tree::Number(number))
}

/// Whether the first of two fields that is there holds a number.
pub open spec fn either_holds_number(
    fields: Seq<(Seq<char>, Tree)>,
    name: Seq<char>,
    other: Seq<char>,
    number: u64,
) -> bool {
    ||| holds_number(fields, name, number)
    ||| lookup(fields, name) is None && holds_number(fields, other, number)
}

/// Four numbers spell a content hash. Each that fits comes through unchanged, and of
/// one that does not fit the remainder comes through.
pub proof fn law_content_hash_is_read(
    data: Seq<(Seq<char>, Tree)>,
    size: u64,
    hash0: u64,
    hash1: u64,
    hash2: u64,
)
    requires
        holds_number(data, "size"@, size),
        holds_number(data, "hash0"@, hash0),
        holds_number(data, "hash1"@, hash1),
        holds_number(data, "hash2"@, hash2),
    ensures
        match content_hash_of(data) {
            Some(hash) => {
                &&& hash.size == size as int % 0x1_0000_0000
                &&& hash.hash0 == hash0 as int % 0x1_0000_0000
                &&& hash.hash1 == hash1 as int % 0x1_0000_0000
                &&& hash.hash2 == hash2 as int % 0x1_0000_0000
                &&& size <= u32::MAX ==> hash.size == size
                &&& hash0 <= u32::MAX ==> hash.hash0 == hash0
                &&& hash1 <= u32::MAX ==> hash.hash1 == hash1
                &&& hash2 <= u32::MAX ==> hash.hash2 == hash2
            },
            None => false,
        },
{
}

/// Without all four numbers there is no content hash.
pub proof fn law_content_hash_needs_four_numbers(data: Seq<(Seq<char>, Tree)>, name: Seq<char>)
    requires
        name == "size"@ || name == "hash0"@ || name == "hash1"@ || name == "hash2"@,
        content_hash_of(data) is Some,
    ensures
        lookup(data, name) is Some,
        lookup(data, name)->0 is Number,
{
}

/// An image whose width and height are given has that width and height, and the
/// format and the number of levels that are given, each unchanged where it fits.
/// Where no number of levels is given there is one level.
pub proof fn law_image_is_read(
    texture: Seq<(Seq<char>, Tree)>,
    width: u64,
    height: u64,
    format: PixelFormat,
    levels: u64,
)
    requires
        holds_number(texture, "width"@, width),
        holds_number(texture, "height"@, height),
        holds_number(texture, "format"@, ordinal(format) as u64),
        0 < width <= u32::MAX,
        0 < height <= u32::MAX,
        levels <= u32::MAX,
        either_holds_number(texture, "levelCount"@, "level_count"@, levels) || (lookup(
            texture,
            "levelCount"@,
        ) is None && lookup(texture, "level_count"@) is None && levels == 1),
    ensures
        image_shape(texture) == Some((width as u32, height as u32, format, levels as u32)),
{
    law_ordinals_are_distinct(format, format);
    law_number_leads_back(format);
}

/// Where the width or the height is not given, both come from the structure `size`.
pub proof fn law_image_size_can_be_nested(
    texture: Seq<(Seq<char>, Tree)>,
    size: Seq<(Seq<char>, Tree)>,
    width: u64,
    height: u64,
    format: PixelFormat,
    levels: u64,
)
    requires
        !(lookup(texture, "width"@) is Some && lookup(texture, "width"@)->0 is Number) || !(lookup(
            texture,
            "height"@,
        ) is Some && lookup(texture, "height"@)->0 is Number),
        lookup(texture, "size"@) == Some(Tree::Struct(size)),
        holds_number(size, "x"@, width),
        holds_number(size, "y"@, height),
        holds_number(texture, "format"@, ordinal(format) as u64),
        0 < width <= u32::MAX,
        0 < height <= u32::MAX,
        levels <= u32::MAX,
        either_holds_number(texture, "levelCount"@, "level_count"@, levels) || (lookup(
            texture,
            "levelCount"@,
        ) is None && lookup(texture, "level_count"@) is None && levels == 1),
    ensures
        image_shape(texture) == Some((width as u32, height as u32, format, levels as u32)),
{
    law_ordinals_are_distinct(format, format);
    law_number_leads_back(format);
}

/// There is no image without a number for its format, and none whose format is not
/// that of the number. Its size is not zero, and is that of the fields `width` and
/// `height` or of the structure `size`, cut to 32 bits.
pub proof fn law_image_is_what_the_fields_say(texture: Seq<(Seq<char>, Tree)>)
    ensures
        match image_shape(texture) {
            Some((width, height, format, levels)) => {
                &&& width > 0 && height > 0
                &&& exists|number: u64| #[trigger]
                    holds_number(texture, "format"@, number) && number as int % 0x1_0000_0000
                        == ordinal(format)
                &&& (exists|w: u64, h: u64|
                    #![trigger holds_number(texture, "width"@, w), holds_number(texture, "height"@, h)]
                    holds_number(texture, "width"@, w) && holds_number(texture, "height"@, h)
                        && width == w as int % 0x1_0000_0000 && height == h as int % 0x1_0000_0000)
                    || (exists|size: Seq<(Seq<char>, Tree)>, w: u64, h: u64|
                    #![trigger holds_number(size, "x"@, w), holds_number(size, "y"@, h)]
                    lookup(texture, "size"@) == Some(Tree::Struct(size)) && holds_number(
                        size,
                        "x"@,
                        w,
                    ) && holds_number(size, "y"@, h) && width == w as int % 0x1_0000_0000 && height
                        == h as int % 0x1_0000_0000)
            },
            None => true,
        },
{
    if image_shape(texture) is Some {
        let (width, height, format, levels) = image_shape(texture)->0;
        let number = as_number(lookup(texture, "format"@))->0;
        assert(holds_number(texture, "format"@, number));
        assert(ordinal(format) == number % 0x1_0000_0000) by {
            law_every_number_stands_for_a_format((number % 0x1_0000_0000) as u32);
        }
        let w = as_number(lookup(texture, "width"@));
        let h = as_number(lookup(texture, "height"@));
        if w is Some && h is Some {
            assert(holds_number(texture, "width"@, w->0) && holds_number(
                texture,
                "height"@,
                h->0,
            ));
        } else {
            let size = lookup(texture, "size"@)->0->Struct_0;
            let x = as_number(lookup(size, "x"@))->0;
            let y = as_number(lookup(size, "y"@))->0;
            assert(lookup(texture, "size"@) == Some(Tree::Struct(size)));
            assert(holds_number(size, "x"@, x) && holds_number(size, "y"@, y));
        }
    }
}

/// The name in the fields is the text of `debugName`, or without such a field that of
/// `debug_name`. A field that is there but holds no text gives no name.
pub proof fn law_name_is_read(fields: Seq<(Seq<char>, Tree)>)
    ensures
        match (lookup(fields, "debugName"@), lookup(fields, "debug_name"@)) {
            (Some(Tree::Text(name)), _) => field_name(fields) == Some(name),
            (None, Some(Tree::Text(name))) => field_name(fields) == Some(name),
            _ => field_name(fields) is None,
        },
{
}

/// Fields that describe an image give it the name that they give.
pub proof fn law_image_carries_the_name_of_its_fields(fields: Seq<(Seq<char>, Tree)>)
    ensures
        match (named_image(fields), image_shape(fields)) {
            (
                Some(MetadataModel::Image { width, height, format, level_count, debug_name }),
                Some(shape),
            ) => shape == (width, height, format, level_count) && debug_name == field_name(fields),
            (None, None) => true,
            _ => false,
        },
{
}

/// A sound has the channels, the rate and the number of frames that the fields give,
/// in any of their spellings. Each number that fits its place comes through unchanged.
pub proof fn law_audio_is_read(
    fields: Seq<(Seq<char>, Tree)>,
    channels: u64,
    sample_rate: u64,
    frame_count: u64,
)
    requires
        either_holds_number(fields, "channels"@, "channelCount"@, channels),
        either_holds_number(fields, "sampleRate"@, "sample_rate"@, sample_rate),
        either_holds_number(fields, "frameCount"@, "frame_count"@, frame_count) || (lookup(
            fields,
            "frameCount"@,
        ) is None && lookup(fields, "frame_count"@) is None && holds_number(
            fields,
            "sampleCount"@,
            frame_count,
        )),
        0 < channels <= u16::MAX,
        0 < sample_rate <= u32::MAX,
        0 < frame_count <= u32::MAX,
    ensures
        named_audio(fields) == Some(
            MetadataModel::Audio {
                channels: channels as u16,
                sample_rate: sample_rate as u32,
                frame_count: frame_count as u32,
                debug_name: field_name(fields),
            },
        ),
{
}

/// There is no sound but one whose numbers the fields give, cut to the bits that they
/// are kept in, and none of them is zero then.
pub proof fn law_audio_is_what_the_fields_say(fields: Seq<(Seq<char>, Tree)>)
    ensures
        match named_audio(fields) {
            Some(MetadataModel::Audio { channels, sample_rate, frame_count, debug_name }) => {
                &&& channels > 0 && sample_rate > 0 && frame_count > 0
                &&& debug_name == field_name(fields)
                &&& exists|n: u64| #[trigger]
                    either_holds_number(fields, "channels"@, "channelCount"@, n) && channels
                        == n as int % 0x1_0000
                &&& exists|n: u64| #[trigger]
                    either_holds_number(fields, "sampleRate"@, "sample_rate"@, n) && sample_rate
                        == n as int % 0x1_0000_0000
                &&& exists|n: u64|
                    (#[trigger] either_holds_number(fields, "frameCount"@, "frame_count"@, n) || (
                    lookup(fields, "frameCount"@) is None && lookup(fields, "frame_count"@) is None
                        && holds_number(fields, "sampleCount"@, n))) && frame_count == n as int
                        % 0x1_0000_0000
            },
            Some(_) => false,
            None => true,
        },
{
    if named_audio(fields) is Some {
        let c = as_number(lookup_either(fields, "channels"@, "channelCount"@))->0;
        let r = as_number(lookup_either(fields, "sampleRate"@, "sample_rate"@))->0;
        assert(either_holds_number(fields, "channels"@, "channelCount"@, c));
        assert(either_holds_number(fields, "sampleRate"@, "sample_rate"@, r));
        let named = lookup_either(fields, "frameCount"@, "frame_count"@);
        let f = if named is Some {
            as_number(named)->0
        } else {
            as_number(lookup(fields, "sampleCount"@))->0
        };
        assert(either_holds_number(fields, "frameCount"@, "frame_count"@, f) || holds_number(
            fields,
            "sampleCount"@,
            f,
        ));
    }
}

/// The number of levels of an image is that of `levelCount`, or without such a field
/// that of `level_count`. Where neither gives a number there is one level.
pub proof fn law_levels_are_read(texture: Seq<(Seq<char>, Tree)>)
    ensures
        match (image_shape(texture), lookup(texture, "levelCount"@), lookup(
            texture,
            "level_count"@,
        )) {
            (None, _, _) => true,
            (Some((_, _, _, levels)), Some(Tree::Number(n)), _) => levels == n as int
                % 0x1_0000_0000,
            (Some((_, _, _, levels)), None, Some(Tree::Number(n))) => levels == n as int
                % 0x1_0000_0000,
            (Some((_, _, _, levels)), _, _) => levels == 1,
        },
{
}

/// A size, a format or a count of levels that does not fit counts by its low bits: what
/// is above them makes no difference. A width or a height of zero makes no image, and
/// neither does a number that stands for no format.
pub proof fn law_images_count_by_low_bits(
    texture: Seq<(Seq<char>, Tree)>,
    width: u64,
    height: u64,
    number: u64,
)
    requires
        holds_number(texture, "width"@, width),
        holds_number(texture, "height"@, height),
        holds_number(texture, "format"@, number),
    ensures
        match image_shape(texture) {
            Some((w, h, format, _)) => {
                &&& w == width as int % 0x1_0000_0000 && w > 0
                &&& h == height as int % 0x1_0000_0000 && h > 0
                &&& ordinal(format) == number as int % 0x1_0000_0000
            },
            None => {
                ||| width as int % 0x1_0000_0000 == 0
                ||| height as int % 0x1_0000_0000 == 0
                ||| number as int % 0x1_0000_0000 >= 147
            },
        },
{
    let value = (number as int % 0x1_0000_0000) as u32;
    if value < 147 {
        law_every_number_stands_for_a_format(value);
    }
}

/// The same holds of a size that is nested.
pub proof fn law_nested_sizes_count_by_low_bits(
    texture: Seq<(Seq<char>, Tree)>,
    size: Seq<(Seq<char>, Tree)>,
    width: u64,
    height: u64,
    number: u64,
)
    requires
        lookup(texture, "width"@) is None || lookup(texture, "height"@) is None,
        lookup(texture, "size"@) == Some(Tree::Struct(size)),
        holds_number(size, "x"@, width),
        holds_number(size, "y"@, height),
        holds_number(texture, "format"@, number),
    ensures
        match image_shape(texture) {
            Some((w, h, format, _)) => {
                &&& w == width as int % 0x1_0000_0000 && w > 0
                &&& h == height as int % 0x1_0000_0000 && h > 0
                &&& ordinal(format) == number as int % 0x1_0000_0000
            },
            None => {
                ||| width as int % 0x1_0000_0000 == 0
                ||| height as int % 0x1_0000_0000 == 0
                ||| number as int % 0x1_0000_0000 >= 147
            },
        },
{
    let value = (number as int % 0x1_0000_0000) as u32;
    if value < 147 {
        law_every_number_stands_for_a_format(value);
    }
}

/// The numbers of a sound that do not fit count by their low bits too, and none of them
/// can be zero then.
pub proof fn law_sounds_count_by_low_bits(
    fields: Seq<(Seq<char>, Tree)>,
    channels: u64,
    sample_rate: u64,
    frame_count: u64,
)
    requires
        either_holds_number(fields, "channels"@, "channelCount"@, channels),
        either_holds_number(fields, "sampleRate"@, "sample_rate"@, sample_rate),
        either_holds_number(fields, "frameCount"@, "frame_count"@, frame_count) || (lookup(
            fields,
            "frameCount"@,
        ) is None && lookup(fields, "frame_count"@) is None && holds_number(
            fields,
            "sampleCount"@,
            frame_count,
        )),
    ensures
        match named_audio(fields) {
            Some(MetadataModel::Audio { channels: c, sample_rate: s, frame_count: f, debug_name })
            => {
                &&& c == channels as int % 0x1_0000 && c > 0
                &&& s == sample_rate as int % 0x1_0000_0000 && s > 0
                &&& f == frame_count as int % 0x1_0000_0000 && f > 0
                &&& debug_name == field_name(fields)
            },
            Some(_) => false,
            None => {
                ||| channels as int % 0x1_0000 == 0
                ||| sample_rate as int % 0x1_0000_0000 == 0
                ||| frame_count as int % 0x1_0000_0000 == 0
            },
        },
{
}

} // verus!
