use kfc_tools::content_map::ContentMap;
use kfc_tools::metadata::ContentMetadata;
use kfc_tools::value::ContentHash;

fn hash(size: u32, hash0: u32, hash1: u32, hash2: u32) -> ContentHash {
    ContentHash { size, hash0, hash1, hash2 }
}

fn sound(frames: u32) -> ContentMetadata {
    ContentMetadata::Audio { channels: 1, sample_rate: 1, frame_count: frames, debug_name: None }
}

fn image(width: u32) -> ContentMetadata {
    ContentMetadata::Image {
        width,
        height: 1,
        format: kfc_tools::pixel_format::PixelFormat::R8_unorm,
        level_count: 1,
        debug_name: None,
    }
}

#[test]
fn hashes_are_told_apart_by_every_word() {
    let mut map = ContentMap::new();
    let hashes =
        [hash(1, 0, 0, 0), hash(0, 1, 0, 0), hash(0, 0, 1, 0), hash(0, 0, 0, 1), hash(u32::MAX, u32::MAX, u32::MAX, u32::MAX)];
    for (i, hash) in hashes.iter().enumerate() {
        map.insert(*hash, sound(i as u32 + 1));
    }
    assert_eq!(map.len(), 5);
    for (i, hash) in hashes.iter().enumerate() {
        assert_eq!(map.get(*hash), Some(&sound(i as u32 + 1)));
        assert!(map.contains(*hash));
    }
    assert!(!map.contains(hash(0, 0, 0, 0)));
    assert!(map.get(hash(0, 0, 0, 0)).is_none());
}

#[test]
fn inserting_replaces_and_inserting_if_absent_does_not() {
    let mut map = ContentMap::new();
    assert!(map.is_empty());
    let key = hash(1, 2, 3, 4);
    map.insert_if_absent(key, sound(1));
    map.insert_if_absent(key, sound(2));
    assert_eq!(map.get(key), Some(&sound(1)));
    map.insert(key, sound(3));
    assert_eq!(map.get(key), Some(&sound(3)));
    assert_eq!(map.len(), 1);
    assert!(!map.is_empty());
}

#[test]
fn images_and_sounds_are_counted() {
    let mut map = ContentMap::new();
    assert_eq!(map.counts(), (0, 0));
    for i in 0..5 {
        map.insert(hash(i, 0, 0, 0), image(i + 1));
    }
    for i in 0..3 {
        map.insert(hash(0, i + 1, 0, 0), sound(i + 1));
    }
    map.insert(hash(4, 0, 0, 0), sound(9));
    assert_eq!(map.counts(), (4, 4));
    assert_eq!(map.len(), 8);
}
