use kfc_tools::content_map::ContentMap;
use kfc_tools::debug_names::DebugNames;
use kfc_tools::metadata::ContentMetadata;
use kfc_tools::pixel_format::PixelFormat;
use kfc_tools::scan::scan_value_for_content;
use kfc_tools::value::{ContentHash, Fields, Guid, Value};

fn fields(entries: Vec<(&str, Value)>) -> Fields {
    Fields::from_entries(entries.into_iter().map(|(name, value)| (name.to_string(), value)).collect())
}

fn object(entries: Vec<(&str, Value)>) -> Value {
    Value::Struct(fields(entries))
}

fn text(text: &str) -> Value {
    Value::Text(text.to_string())
}

fn hash(n: u32) -> ContentHash {
    ContentHash { size: n, hash0: 10, hash1: 20, hash2: 30 }
}

fn data(n: u32) -> Value {
    object(vec![
        ("size", Value::Number(n as u64)),
        ("hash0", Value::Number(10)),
        ("hash1", Value::Number(20)),
        ("hash2", Value::Number(30)),
    ])
}

fn content_guid(n: u32) -> Value {
    Value::Guid(Guid { id: n as u128, content: Some(hash(n)) })
}

fn plain_guid(id: u128) -> Value {
    Value::Guid(Guid { id, content: None })
}

fn image(width: u32, name: Option<&str>) -> ContentMetadata {
    ContentMetadata::Image {
        width,
        height: 8,
        format: PixelFormat::R8_unorm,
        level_count: 1,
        debug_name: name.map(|name| name.to_string()),
    }
}

fn image_entries(width: u32) -> Vec<(&'static str, Value)> {
    vec![
        ("width", Value::Number(width as u64)),
        ("height", Value::Number(8)),
        ("format", Value::Number(9)),
    ]
}

fn texture(width: u32, n: u32) -> Value {
    let mut entries = image_entries(width);
    entries.push(("data", data(n)));
    object(entries)
}

fn scan(value: &Value, names: Option<&DebugNames>) -> ContentMap {
    let mut map = ContentMap::new();
    scan_value_for_content(value, None, &mut map, names);
    map
}

#[test]
fn guid_is_described_by_the_fields_around_it() {
    let mut entries = image_entries(4);
    entries.push(("debugName", text("leaf")));
    entries.push(("content", content_guid(1)));
    let map = scan(&object(entries), None);
    assert_eq!(map.len(), 1);
    assert_eq!(map.get(hash(1)), Some(&image(4, Some("leaf"))));
}

#[test]
fn guid_in_a_variant_is_described_by_its_fields() {
    let mut entries = image_entries(4);
    entries.push(("content", content_guid(1)));
    let map = scan(&Value::Variant(fields(entries)), None);
    assert_eq!(map.get(hash(1)), Some(&image(4, None)));
}

#[test]
fn guid_can_be_a_sound() {
    let map = scan(
        &object(vec![
            ("channels", Value::Number(2)),
            ("sampleRate", Value::Number(44100)),
            ("frameCount", Value::Number(5)),
            ("content", content_guid(1)),
        ]),
        None,
    );
    assert_eq!(
        map.get(hash(1)),
        Some(&ContentMetadata::Audio {
            channels: 2,
            sample_rate: 44100,
            frame_count: 5,
            debug_name: None,
        })
    );
}

#[test]
fn image_comes_before_sound() {
    let mut entries = image_entries(4);
    entries.push(("channels", Value::Number(2)));
    entries.push(("sampleRate", Value::Number(44100)));
    entries.push(("frameCount", Value::Number(5)));
    entries.push(("content", content_guid(1)));
    let map = scan(&object(entries), None);
    assert_eq!(map.get(hash(1)), Some(&image(4, None)));
}

#[test]
fn guid_without_content_or_description_says_nothing() {
    let mut entries = image_entries(4);
    entries.push(("content", plain_guid(1)));
    assert!(scan(&object(entries), None).is_empty());
    assert!(scan(&object(vec![("content", content_guid(1))]), None).is_empty());
    assert!(scan(&content_guid(1), None).is_empty());
    let mut entries = image_entries(4);
    entries.push(("list", Value::Array(vec![content_guid(1)])));
    assert!(scan(&object(entries), None).is_empty());
}

#[test]
fn ui_texture_refers_to_its_data() {
    let map = scan(&object(vec![("uiTexture", texture(4, 1))]), None);
    assert_eq!(map.get(hash(1)), Some(&image(4, None)));
}

#[test]
fn icon_texture_counts_where_there_is_no_ui_texture() {
    let map = scan(
        &object(vec![("icon", object(vec![("texture", texture(5, 1))]))]),
        None,
    );
    assert_eq!(map.get(hash(1)), Some(&image(5, None)));
}

#[test]
fn texture_name_comes_from_the_names_by_guid() {
    let mut names = DebugNames::new();
    names.record("BuffType", 77, "g", &object(vec![("debugName", text("haste"))]));
    let value = object(vec![
        ("$guid", plain_guid(77)),
        ("debugName", text("fallback")),
        ("uiTexture", texture(4, 1)),
    ]);
    assert_eq!(scan(&value, Some(&names)).get(hash(1)), Some(&image(4, Some("haste"))));
    assert_eq!(scan(&value, None).get(hash(1)), Some(&image(4, Some("fallback"))));
    let other = object(vec![
        ("guid", plain_guid(78)),
        ("$guid", plain_guid(77)),
        ("uiTexture", texture(4, 1)),
    ]);
    assert_eq!(scan(&other, Some(&names)).get(hash(1)), Some(&image(4, None)));
}

#[test]
fn texture_name_falls_back_to_the_texture() {
    let mut entries = image_entries(4);
    entries.push(("data", data(1)));
    entries.push(("debug_name", text("own")));
    let value = object(vec![("uiTexture", object(entries))]);
    assert_eq!(scan(&value, None).get(hash(1)), Some(&image(4, Some("own"))));
}

#[test]
fn icons_of_a_registry_are_scanned() {
    let value = object(vec![(
        "icons",
        Value::Array(vec![
            object(vec![("debugName", text("one")), ("uiTexture", texture(4, 1))]),
            Value::Number(3),
            object(vec![("debugName", text("two")), ("uiTexture", texture(6, 2))]),
        ]),
    )]);
    let map = scan(&value, None);
    assert_eq!(map.len(), 2);
    assert_eq!(map.get(hash(1)), Some(&image(4, Some("one"))));
    assert_eq!(map.get(hash(2)), Some(&image(6, Some("two"))));
}

#[test]
fn data_is_described_by_the_fields_around_the_structure_first() {
    let mut inner = image_entries(4);
    inner.push(("data", data(1)));
    let mut outer = image_entries(16);
    outer.push(("inner", object(inner)));
    outer.push(("debugName", text("outer")));
    let map = scan(&object(outer), None);
    assert_eq!(map.get(hash(1)), Some(&image(16, Some("outer"))));
}

#[test]
fn data_does_not_take_the_place_of_what_is_known() {
    let mut map = ContentMap::new();
    map.insert(hash(1), image(99, Some("known")));
    scan_value_for_content(&texture(4, 1), None, &mut map, None);
    assert_eq!(map.get(hash(1)), Some(&image(99, Some("known"))));
    scan_value_for_content(&object(vec![("uiTexture", texture(4, 1))]), None, &mut map, None);
    assert_eq!(map.get(hash(1)), Some(&image(4, None)));
}

#[test]
fn last_replacement_counts() {
    let first = object(vec![("uiTexture", texture(4, 1))]);
    let second = object(vec![("uiTexture", texture(5, 1))]);
    let map = scan(&Value::Array(vec![first, second]), None);
    assert_eq!(map.get(hash(1)), Some(&image(5, None)));
}

#[test]
fn scanning_again_changes_nothing() {
    let value = Value::Array(vec![
        object(vec![("uiTexture", texture(4, 1))]),
        texture(5, 1),
        texture(6, 2),
        object(vec![("uiTexture", texture(7, 3))]),
    ]);
    let mut map = scan(&value, None);
    let before: Vec<bool> = vec![
        map.get(hash(1)) == Some(&image(4, None)),
        map.get(hash(2)) == Some(&image(6, None)),
        map.get(hash(3)) == Some(&image(7, None)),
    ];
    assert_eq!(before, vec![true, true, true]);
    scan_value_for_content(&value, None, &mut map, None);
    assert_eq!(map.len(), 3);
    assert_eq!(map.get(hash(1)), Some(&image(4, None)));
    assert_eq!(map.get(hash(2)), Some(&image(6, None)));
    assert_eq!(map.get(hash(3)), Some(&image(7, None)));
}

#[test]
fn parent_of_the_scanned_value_can_be_given() {
    let parent = fields(image_entries(12));
    let mut map = ContentMap::new();
    scan_value_for_content(&content_guid(1), Some(&parent), &mut map, None);
    assert_eq!(map.get(hash(1)), Some(&image(12, None)));
}

#[test]
fn other_values_say_nothing() {
    for value in [Value::Other, Value::Number(1), text("x"), Value::Array(Vec::new())] {
        assert!(scan(&value, None).is_empty());
    }
}
