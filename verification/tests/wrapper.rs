use kfc_tools::wrapper::{
    has_wrapper, strip_content_wrapper, strip_content_wrapper_owned, WRAPPER_MAGIC,
    WRAPPER_SECONDARY, WRAPPER_TERTIARY,
};

fn wrapped_blob(len: usize) -> Vec<u8> {
    let mut blob = vec![0u8; len];
    blob[0..4].copy_from_slice(&WRAPPER_MAGIC.to_le_bytes());
    blob[8..12].copy_from_slice(&WRAPPER_SECONDARY.to_le_bytes());
    blob[20..24].copy_from_slice(&WRAPPER_TERTIARY.to_le_bytes());
    blob
}

#[test]
fn test_has_wrapper() {
    // Valid wrapper
    let mut wrapped = vec![0u8; 32];
    wrapped[0..4].copy_from_slice(&WRAPPER_MAGIC.to_le_bytes());
    wrapped[8..12].copy_from_slice(&WRAPPER_SECONDARY.to_le_bytes());
    wrapped[20..24].copy_from_slice(&WRAPPER_TERTIARY.to_le_bytes());
    assert!(has_wrapper(&wrapped));

    // No wrapper
    let raw = vec![0u8; 32];
    assert!(!has_wrapper(&raw));

    // Too short
    let short = vec![0u8; 10];
    assert!(!has_wrapper(&short));
}

#[test]
fn test_strip_wrapper() {
    let mut wrapped = vec![0u8; 50];
    wrapped[0..4].copy_from_slice(&WRAPPER_MAGIC.to_le_bytes());
    wrapped[8..12].copy_from_slice(&WRAPPER_SECONDARY.to_le_bytes());
    wrapped[20..24].copy_from_slice(&WRAPPER_TERTIARY.to_le_bytes());
    wrapped[24..].fill(0xFF);

    let stripped = strip_content_wrapper(&wrapped);
    assert_eq!(stripped.len(), 26);
    assert!(stripped.iter().all(|&b| b == 0xFF));

    // No wrapper - should return the data as they are
    let raw = vec![0xAA; 20];
    let result = strip_content_wrapper(&raw);
    assert_eq!(result.len(), 20);
    assert_eq!(result, raw.as_slice());
}

#[test]
fn wrapper_tags_have_the_documented_bytes() {
    let mut blob = vec![0u8; 24];
    blob[0..4].copy_from_slice(&[0x03, 0x02, 0x23, 0x07]);
    blob[8..12].copy_from_slice(&[0x00, 0x00, 0x0e, 0x00]);
    blob[20..24].copy_from_slice(&[0x11, 0x00, 0x02, 0x00]);
    assert!(has_wrapper(&blob));
    assert!(strip_content_wrapper(&blob).is_empty());
}

#[test]
fn wrapper_needs_all_three_tags() {
    for at in [0, 8, 20] {
        let mut blob = wrapped_blob(40);
        blob[at] ^= 1;
        assert!(!has_wrapper(&blob));
        assert_eq!(strip_content_wrapper(&blob), blob.as_slice());
    }
}

#[test]
fn wrapper_ignores_the_bytes_between_the_tags() {
    let mut blob = wrapped_blob(40);
    blob[4..8].fill(0xAB);
    blob[12..20].fill(0xCD);
    assert!(has_wrapper(&blob));
}

#[test]
fn wrapper_one_byte_short_is_no_wrapper() {
    let blob = wrapped_blob(24);
    assert!(!has_wrapper(&blob[..23]));
    assert_eq!(strip_content_wrapper(&blob[..23]), &blob[..23]);
}

#[test]
fn strip_undoes_wrapping_once() {
    let mut twice = wrapped_blob(24);
    let mut inner = wrapped_blob(24);
    inner.extend_from_slice(&[1, 2, 3]);
    twice.extend_from_slice(&inner);
    assert_eq!(strip_content_wrapper(&twice), inner.as_slice());
    assert_eq!(strip_content_wrapper_owned(twice), inner);
}

#[test]
fn strip_owned_keeps_unwrapped_data() {
    assert_eq!(strip_content_wrapper_owned(vec![7, 8, 9]), vec![7, 8, 9]);
    assert_eq!(strip_content_wrapper_owned(Vec::new()), Vec::<u8>::new());
}
