use kfc_tools::content_map::ContentMap;
use kfc_tools::extract::{
    apply_limit, audio_failure_message, audio_place, blob_ending, conversion_of,
    extract_registry_metadata, failed_place, keep_known, level_place, needs_full_scan, raw_place,
    registry_wants, scan_resource, take_resource, BlobOutcome, Layout, RegistryResource, ResourceReading,
};
use kfc_tools::jobs::{Ending, Notice};
use kfc_tools::metadata::ContentMetadata;
use kfc_tools::value::{ContentHash, Fields, Guid, Value};

fn hash(n: u32) -> ContentHash {
    ContentHash { size: n, hash0: 0, hash1: 0, hash2: 0 }
}

fn sound(n: u32) -> Value {
    Value::Struct(Fields::from_entries(vec![
        ("channels".to_string(), Value::Number(1)),
        ("sampleRate".to_string(), Value::Number(8000)),
        ("frameCount".to_string(), Value::Number(n as u64)),
        ("content".to_string(), Value::Guid(Guid { id: n as u128, content: Some(hash(n)) })),
    ]))
}

fn metadata(n: u32) -> ContentMetadata {
    ContentMetadata::Audio { channels: 1, sample_rate: 8000, frame_count: n, debug_name: None }
}

fn resource(class_name: Option<&str>, reading: ResourceReading) -> RegistryResource {
    RegistryResource { class_name: class_name.map(|name| name.to_string()), reading }
}

fn known(numbers: &[u32]) -> ContentMap {
    let mut map = ContentMap::new();
    for n in numbers {
        map.insert(hash(*n), metadata(*n));
    }
    map
}

#[test]
fn registries_go_by_the_names_of_types() {
    assert!(registry_wants("icons", Some("keen::ItemIconRegistry")));
    assert!(registry_wants("icons", Some("icons")));
    assert!(!registry_wants("icons", Some("ICON")));
    assert!(registry_wants("ui", Some("keen::UITexture")));
    assert!(registry_wants("ui", Some("GuiPart")));
    assert!(registry_wants("ui", Some("UiPart")));
    assert!(!registry_wants("ui", Some("Mesh")));
    assert!(registry_wants("all", Some("Mesh")));
    assert!(registry_wants("anything", Some("Mesh")));
    assert!(!registry_wants("all", None));
    assert!(!registry_wants("icons", None));
}

#[test]
fn read_resources_are_taken_in() {
    let mut map = ContentMap::new();
    assert_eq!(take_resource(&ResourceReading::Decoded(sound(1)), &mut map, None), Ok(()));
    assert_eq!(take_resource(&ResourceReading::Missing, &mut map, None), Ok(()));
    assert_eq!(take_resource(&ResourceReading::Undecodable, &mut map, None), Ok(()));
    assert_eq!(take_resource(&ResourceReading::Unread, &mut map, None), Ok(()));
    assert_eq!(
        take_resource(&ResourceReading::Failed("gone".to_string()), &mut map, None),
        Err("gone".to_string())
    );
    assert_eq!(map.len(), 1);
    assert_eq!(map.get(hash(1)), Some(&metadata(1)));
}

#[test]
fn full_scan_passes_over_failures() {
    let mut map = ContentMap::new();
    let readings = [
        ResourceReading::Decoded(sound(1)),
        ResourceReading::Failed("gone".to_string()),
        ResourceReading::Missing,
        ResourceReading::Undecodable,
        ResourceReading::Unread,
        ResourceReading::Decoded(sound(2)),
    ];
    for reading in &readings {
        scan_resource(reading, &mut map, None);
    }
    assert_eq!(map.len(), 2);
    assert_eq!(map.get(hash(1)), Some(&metadata(1)));
    assert_eq!(map.get(hash(2)), Some(&metadata(2)));
}

#[test]
fn registry_stops_where_the_archive_cannot_be_read() {
    let mut map = ContentMap::new();
    let resources = vec![
        resource(Some("Icon"), ResourceReading::Decoded(sound(1))),
        resource(Some("Icon"), ResourceReading::Missing),
        resource(Some("Icon"), ResourceReading::Unread),
        resource(Some("Icon"), ResourceReading::Undecodable),
        resource(Some("Icon"), ResourceReading::Decoded(sound(2))),
        resource(Some("Icon"), ResourceReading::Failed("gone".to_string())),
        resource(Some("Icon"), ResourceReading::Decoded(sound(3))),
        resource(Some("Icon"), ResourceReading::Failed("again".to_string())),
    ];
    assert_eq!(
        extract_registry_metadata("icons", &resources, &mut map, None),
        Err("gone".to_string())
    );
    assert_eq!(map.len(), 2);
    assert!(!map.contains(hash(3)));
    assert_eq!(extract_registry_metadata("icons", &vec![], &mut map, None), Ok(()));
    assert_eq!(map.len(), 2);
}

#[test]
fn registry_takes_exactly_its_own_resources() {
    let resources = vec![
        resource(Some("Mesh"), ResourceReading::Decoded(sound(1))),
        resource(Some("ItemIcon"), ResourceReading::Decoded(sound(2))),
        resource(None, ResourceReading::Failed("gone".to_string())),
        resource(Some("Mesh"), ResourceReading::Failed("gone".to_string())),
        resource(None, ResourceReading::Decoded(sound(3))),
        resource(Some("icons"), ResourceReading::Decoded(sound(4))),
    ];
    let mut map = ContentMap::new();
    assert_eq!(extract_registry_metadata("icons", &resources, &mut map, None), Ok(()));
    assert_eq!(map.len(), 2);
    assert!(map.contains(hash(2)));
    assert!(map.contains(hash(4)));
    let mut map = ContentMap::new();
    assert_eq!(
        extract_registry_metadata("all", &resources, &mut map, None),
        Err("gone".to_string())
    );
    assert_eq!(map.len(), 2);
    assert!(map.contains(hash(1)));
    assert!(map.contains(hash(2)));
}

#[test]
fn everything_is_scanned_unless_a_registry_found_something() {
    assert!(needs_full_scan(false, false, &known(&[1])));
    assert!(needs_full_scan(true, false, &known(&[])));
    assert!(!needs_full_scan(true, false, &known(&[1])));
}

#[test]
fn everything_is_scanned_where_a_registry_failed() {
    assert!(needs_full_scan(true, true, &known(&[1])));
    assert!(needs_full_scan(true, true, &known(&[])));
}

#[test]
fn registry_leaves_only_known_blobs() {
    let hashes = vec![hash(4), hash(1), hash(3)];
    assert_eq!(keep_known(hashes.clone(), true, &known(&[3, 4, 5])), vec![hash(4), hash(3)]);
    assert_eq!(keep_known(hashes.clone(), true, &known(&[])), hashes);
    assert_eq!(keep_known(hashes.clone(), false, &known(&[3])), hashes);
}

#[test]
fn limit_leaves_the_first_blobs() {
    let hashes = vec![hash(4), hash(1), hash(3)];
    assert_eq!(apply_limit(hashes.clone(), Some(2)), vec![hash(4), hash(1)]);
    assert_eq!(apply_limit(hashes.clone(), Some(9)), hashes);
    assert_eq!(apply_limit(hashes.clone(), Some(0)), vec![]);
    assert_eq!(apply_limit(hashes.clone(), None), hashes);
}

#[test]
fn conversion_has_to_be_asked_for() {
    let map = known(&[1]);
    assert_eq!(conversion_of(true, &map, hash(1)), Some(&metadata(1)));
    assert_eq!(conversion_of(true, &map, hash(2)), None);
    assert_eq!(conversion_of(false, &map, hash(1)), None);
}

#[test]
fn files_go_to_the_folder_of_what_they_hold() {
    let layout = Layout { organize: true, use_debug_names: true };
    assert_eq!(raw_place(layout, "h"), vec!["unknown", "h.bin"]);
    assert_eq!(failed_place(layout, "h", Some("n")), vec!["failed", "n_h.bin"]);
    assert_eq!(audio_place(layout, "h", Some("n")), vec!["audio", "n_h.wav"]);
    assert_eq!(level_place(layout, "h", None, 512, 512, 0, 1), vec!["icons", "h.png"]);
    assert_eq!(level_place(layout, "h", None, 513, 513, 0, 1), vec!["textures", "h.png"]);
    assert_eq!(level_place(layout, "h", None, 512, 256, 0, 1), vec!["textures", "h.png"]);
    assert_eq!(level_place(layout, "h", None, 64, 64, 12, 13), vec!["icons", "h._mip12.png"]);
}

#[test]
fn files_go_straight_to_the_output_where_it_is_not_organised() {
    let layout = Layout { organize: false, use_debug_names: false };
    assert_eq!(raw_place(layout, "h"), vec!["h.bin"]);
    assert_eq!(failed_place(layout, "h", Some("n")), vec!["h.bin"]);
    assert_eq!(audio_place(layout, "h", Some("n")), vec!["h.wav"]);
    assert_eq!(level_place(layout, "h", Some("n"), 4, 4, 0, 2), vec!["h._mip0.png"]);
}

#[test]
fn blobs_end_with_a_reason() {
    let failed = |reason: &str| Ending {
        failed: true,
        notice: Notice::Problem(format!("Error extracting content `h`: {reason}")),
    };
    assert_eq!(blob_ending("h", BlobOutcome::NotFound), failed("Content not found"));
    assert_eq!(blob_ending("h", BlobOutcome::ReadFailed("r".to_string())), failed("r"));
    assert_eq!(blob_ending("h", BlobOutcome::WriteFailed("w".to_string())), failed("w"));
    assert_eq!(
        blob_ending("h", BlobOutcome::Extracted),
        Ending { failed: false, notice: Notice::Quiet }
    );
    assert_eq!(
        audio_failure_message("h", "bad"),
        "Failed to convert audio h: bad, saving to failed/"
    );
}
