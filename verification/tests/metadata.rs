use kfc_tools::metadata::{
    extract_content_hash_from_data, extract_debug_name, extract_image_metadata,
    extract_named_audio, extract_named_image, ContentMetadata,
};
use kfc_tools::pixel_format::PixelFormat;
use kfc_tools::value::{ContentHash, Fields, Value};

fn fields(entries: Vec<(&str, Value)>) -> Fields {
    Fields::from_entries(entries.into_iter().map(|(name, value)| (name.to_string(), value)).collect())
}

fn size(x: u64, y: u64) -> Value {
    Value::Struct(fields(vec![("x", Value::Number(x)), ("y", Value::Number(y))]))
}

#[test]
fn content_hash_needs_all_four_numbers() {
    let data = fields(vec![
        ("size", Value::Number(1)),
        ("hash0", Value::Number(2)),
        ("hash1", Value::Number(3)),
        ("hash2", Value::Number(4)),
    ]);
    assert_eq!(
        extract_content_hash_from_data(&data),
        Some(ContentHash { size: 1, hash0: 2, hash1: 3, hash2: 4 })
    );
    for missing in ["size", "hash0", "hash1", "hash2"] {
        let mut entries = Vec::new();
        for name in ["size", "hash0", "hash1", "hash2"] {
            if name != missing {
                entries.push((name, Value::Number(1)));
            }
        }
        assert_eq!(extract_content_hash_from_data(&fields(entries)), None);
    }
    let text = fields(vec![
        ("size", Value::Text("1".to_string())),
        ("hash0", Value::Number(2)),
        ("hash1", Value::Number(3)),
        ("hash2", Value::Number(4)),
    ]);
    assert_eq!(extract_content_hash_from_data(&text), None);
}

#[test]
fn content_hash_keeps_the_lower_bits() {
    let data = fields(vec![
        ("size", Value::Number(0x1_0000_0005)),
        ("hash0", Value::Number(u64::MAX)),
        ("hash1", Value::Number(0xffff_ffff)),
        ("hash2", Value::Number(0)),
    ]);
    assert_eq!(
        extract_content_hash_from_data(&data),
        Some(ContentHash { size: 5, hash0: u32::MAX, hash1: u32::MAX, hash2: 0 })
    );
}

#[test]
fn image_size_comes_from_width_and_height() {
    let texture = fields(vec![
        ("width", Value::Number(64)),
        ("height", Value::Number(32)),
        ("size", size(1, 1)),
        ("format", Value::Number(37)),
        ("levelCount", Value::Number(7)),
    ]);
    assert_eq!(
        extract_image_metadata(&texture),
        Some((64, 32, PixelFormat::R8G8B8A8_unorm, 7))
    );
}

#[test]
fn image_size_comes_from_the_nested_structure_where_one_side_is_missing() {
    let texture = fields(vec![
        ("width", Value::Number(64)),
        ("size", size(16, 8)),
        ("format", Value::Number(146)),
        ("level_count", Value::Number(2)),
    ]);
    assert_eq!(extract_image_metadata(&texture), Some((16, 8, PixelFormat::BC7_srgb_block, 2)));
}

#[test]
fn image_has_one_level_unless_it_says_otherwise() {
    let texture = fields(vec![("size", size(16, 8)), ("format", Value::Number(0))]);
    assert_eq!(extract_image_metadata(&texture), Some((16, 8, PixelFormat::Undefined, 1)));
    let texture = fields(vec![
        ("size", size(16, 8)),
        ("format", Value::Number(0)),
        ("levelCount", Value::Text("x".to_string())),
        ("level_count", Value::Number(5)),
    ]);
    assert_eq!(extract_image_metadata(&texture), Some((16, 8, PixelFormat::Undefined, 1)));
}

#[test]
fn no_image_without_size_or_known_format() {
    assert_eq!(extract_image_metadata(&fields(vec![("format", Value::Number(1))])), None);
    let zero = fields(vec![("size", size(0, 8)), ("format", Value::Number(1))]);
    assert_eq!(extract_image_metadata(&zero), None);
    let truncated = fields(vec![("size", size(0x1_0000_0000, 8)), ("format", Value::Number(1))]);
    assert_eq!(extract_image_metadata(&truncated), None);
    let unknown = fields(vec![("size", size(8, 8)), ("format", Value::Number(147))]);
    assert_eq!(extract_image_metadata(&unknown), None);
    let missing = fields(vec![("size", size(8, 8))]);
    assert_eq!(extract_image_metadata(&missing), None);
}

#[test]
fn debug_name_is_the_first_of_two_fields() {
    let both = fields(vec![
        ("debug_name", Value::Text("b".to_string())),
        ("debugName", Value::Text("a".to_string())),
    ]);
    assert_eq!(extract_debug_name(&both), Some("a".to_string()));
    let second = fields(vec![("debug_name", Value::Text("b".to_string()))]);
    assert_eq!(extract_debug_name(&second), Some("b".to_string()));
    let no_text = fields(vec![
        ("debugName", Value::Number(1)),
        ("debug_name", Value::Text("b".to_string())),
    ]);
    assert_eq!(extract_debug_name(&no_text), None);
}

#[test]
fn named_image_carries_its_name() {
    let texture = fields(vec![
        ("size", size(4, 4)),
        ("format", Value::Number(9)),
        ("debugName", Value::Text("icon".to_string())),
    ]);
    assert_eq!(
        extract_named_image(&texture),
        Some(ContentMetadata::Image {
            width: 4,
            height: 4,
            format: PixelFormat::R8_unorm,
            level_count: 1,
            debug_name: Some("icon".to_string()),
        })
    );
}

#[test]
fn audio_reads_either_spelling() {
    let sound = fields(vec![
        ("channelCount", Value::Number(2)),
        ("sample_rate", Value::Number(48000)),
        ("sampleCount", Value::Number(100)),
        ("debug_name", Value::Text("bell".to_string())),
    ]);
    assert_eq!(
        extract_named_audio(&sound),
        Some(ContentMetadata::Audio {
            channels: 2,
            sample_rate: 48000,
            frame_count: 100,
            debug_name: Some("bell".to_string()),
        })
    );
    let sound = fields(vec![
        ("channels", Value::Number(0x1_0001)),
        ("sampleRate", Value::Number(1)),
        ("frame_count", Value::Number(2)),
        ("sampleCount", Value::Number(3)),
    ]);
    assert_eq!(
        extract_named_audio(&sound),
        Some(ContentMetadata::Audio {
            channels: 1,
            sample_rate: 1,
            frame_count: 2,
            debug_name: None,
        })
    );
}

#[test]
fn no_audio_without_channels_rate_or_frames() {
    for zero in ["channels", "sampleRate", "frameCount"] {
        let entries = ["channels", "sampleRate", "frameCount"]
            .into_iter()
            .map(|name| (name, Value::Number(if name == zero { 0 } else { 1 })))
            .collect();
        assert!(extract_named_audio(&fields(entries)).is_none());
    }
    let truncated = fields(vec![
        ("channels", Value::Number(0x1_0000)),
        ("sampleRate", Value::Number(1)),
        ("frameCount", Value::Number(1)),
    ]);
    assert!(extract_named_audio(&truncated).is_none());
    assert!(extract_named_audio(&fields(Vec::new())).is_none());
}
