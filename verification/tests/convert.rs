use kfc_tools::convert::{
    convert_audio, convert_image, give_up_image, keep_raw, DecodedLevel, ImageSize,
};
use kfc_tools::extract::Layout;
use kfc_tools::image_file::{encode_level, rgba_len, row_fits};
use kfc_tools::levels::{Decoding, ImageFailure, Level};

const PLAIN: Layout = Layout { organize: false, use_debug_names: false };
const FULL: Layout = Layout { organize: true, use_debug_names: true };

fn level(number: u32, width: u32, height: u32) -> Level {
    Level { level: number, width, height, from: 0, to: 0 }
}

fn pixels(width: u32, height: u32) -> Vec<u8> {
    (0..width * height * 4).map(|i| (i * 7 % 251) as u8).collect()
}

fn decoded(number: u32, width: u32, height: u32, decoding: Decoding) -> DecodedLevel {
    DecodedLevel { level: level(number, width, height), decoding, rgba: pixels(width, height) }
}

fn read_png(file: &[u8]) -> (u32, u32, Vec<u8>) {
    let mut reader = png::Decoder::new(file).read_info().unwrap();
    let mut pixels = vec![0; reader.output_buffer_size()];
    let info = reader.next_frame(&mut pixels).unwrap();
    assert_eq!(info.color_type, png::ColorType::Rgba);
    assert_eq!(info.bit_depth, png::BitDepth::Eight);
    pixels.truncate(info.buffer_size());
    (info.width, info.height, pixels)
}

#[test]
fn encoded_level_holds_the_pixels() {
    let level = level(0, 3, 2);
    assert_eq!(rgba_len(&level), Some(24));
    let file = encode_level(&level, &pixels(3, 2)).unwrap();
    assert_eq!(&file[..8], &[137, 80, 78, 71, 13, 10, 26, 10]);
    assert_eq!(read_png(&file), (3, 2, pixels(3, 2)));
}

#[test]
fn level_without_pixels_is_not_encoded() {
    assert_eq!(
        encode_level(&level(0, 0, 2), &Vec::new()).unwrap_err().message(),
        "Zero width not allowed"
    );
    assert_eq!(
        encode_level(&level(0, 2, 0), &Vec::new()).unwrap_err().message(),
        "Zero height not allowed"
    );
    assert!(encode_level(&level(0, 2, 2), &vec![0; 15]).is_err());
    assert!(encode_level(&level(0, 2, 2), &vec![0; 17]).is_err());
}

#[test]
fn huge_levels_cannot_be_counted() {
    assert_eq!(rgba_len(&level(0, u32::MAX, 1)), Some(0x3_ffff_fffc));
    assert_eq!(rgba_len(&level(0, u32::MAX, u32::MAX)), None);
}

#[test]
fn rows_have_to_fit_the_encoder() {
    assert!(row_fits(&level(0, 1, 1)));
    assert!(row_fits(&level(0, 0x3fff_ffff, 1)));
    assert!(!row_fits(&level(0, 0x4000_0000, 1)));
    assert!(!row_fits(&level(0, u32::MAX, 1)));
}

#[test]
fn raw_blob_is_written_as_it_is() {
    let conversion = keep_raw(PLAIN, "h", vec![1, 2, 3]);
    assert_eq!(conversion.files.len(), 1);
    assert_eq!(conversion.files[0].place, vec!["h.bin"]);
    assert_eq!(conversion.files[0].bytes, vec![1, 2, 3]);
    assert_eq!(conversion.warning, None);
    assert_eq!(keep_raw(FULL, "h", vec![]).files[0].place, vec!["unknown", "h.bin"]);
}

#[test]
fn converted_sound_is_written() {
    let conversion = convert_audio(FULL, "h", Some("bell"), Ok(vec![9]), vec![1]);
    assert_eq!(conversion.files[0].place, vec!["audio", "bell_h.wav"]);
    assert_eq!(conversion.files[0].bytes, vec![9]);
    assert_eq!(conversion.warning, None);
}

#[test]
fn sound_that_cannot_be_converted_keeps_its_data() {
    let conversion = convert_audio(FULL, "h", None, Err("bad".to_string()), vec![1]);
    assert_eq!(conversion.files[0].place, vec!["failed", "h.bin"]);
    assert_eq!(conversion.files[0].bytes, vec![1]);
    assert_eq!(
        conversion.warning.unwrap(),
        "Failed to convert audio h: bad, saving to failed/"
    );
}

#[test]
fn image_with_one_level_comes_to_one_file() {
    let size = ImageSize { width: 512, height: 512, levels: 1 };
    let levels = vec![decoded(0, 4, 4, Decoding::Done)];
    let conversion = convert_image(FULL, "h", Some("axe"), size, &levels, vec![1]);
    assert_eq!(conversion.files.len(), 1);
    assert_eq!(conversion.files[0].place, vec!["icons", "axe_h.png"]);
    assert_eq!(read_png(&conversion.files[0].bytes), (4, 4, pixels(4, 4)));
    assert_eq!(conversion.warning, None);
}

#[test]
fn image_comes_to_one_file_for_each_decoded_level() {
    let size = ImageSize { width: 4, height: 2, levels: 4 };
    let levels = vec![
        decoded(0, 4, 2, Decoding::Done),
        decoded(1, 2, 1, Decoding::Failed("bad".to_string())),
        decoded(2, 1, 1, Decoding::Done),
        decoded(3, 1, 1, Decoding::Panicked),
    ];
    let conversion = convert_image(FULL, "h", None, size, &levels, vec![1]);
    assert_eq!(conversion.files.len(), 2);
    assert_eq!(conversion.files[0].place, vec!["textures", "h._mip0.png"]);
    assert_eq!(read_png(&conversion.files[0].bytes), (4, 2, pixels(4, 2)));
    assert_eq!(conversion.files[1].place, vec!["textures", "h._mip2.png"]);
    assert_eq!(read_png(&conversion.files[1].bytes), (1, 1, pixels(1, 1)));
    assert_eq!(conversion.warning, None);
}

#[test]
fn image_without_its_first_level_keeps_its_data() {
    let size = ImageSize { width: 4, height: 2, levels: 2 };
    let levels = vec![
        decoded(0, 4, 2, Decoding::Failed("bad".to_string())),
        decoded(1, 2, 1, Decoding::Done),
    ];
    let conversion = convert_image(FULL, "h", Some("a:b"), size, &levels, vec![1, 2]);
    assert_eq!(conversion.files.len(), 1);
    assert_eq!(conversion.files[0].place, vec!["failed", "a_b_h.bin"]);
    assert_eq!(conversion.files[0].bytes, vec![1, 2]);
    assert_eq!(
        conversion.warning.unwrap(),
        "Failed to decode image h level 0: bad, saving to failed/"
    );
    let levels = vec![decoded(0, 4, 2, Decoding::Panicked)];
    let conversion = convert_image(PLAIN, "h", Some("a"), size, &levels, vec![1, 2]);
    assert_eq!(conversion.files[0].place, vec!["h.bin"]);
    assert_eq!(
        conversion.warning.unwrap(),
        "Panic during decode of image h level 0, saving to failed/"
    );
    let conversion = convert_image(PLAIN, "h", None, size, &Vec::new(), vec![1]);
    assert_eq!(conversion.warning.unwrap(), "No mipmaps extracted for h, saving to failed/");
}

#[test]
fn image_that_is_given_up_keeps_its_data() {
    let conversion = give_up_image(FULL, "h", None, &ImageFailure::EmptyData, vec![5]);
    assert_eq!(conversion.files[0].place, vec!["failed", "h.bin"]);
    assert_eq!(conversion.files[0].bytes, vec![5]);
    assert_eq!(conversion.warning.unwrap(), "Empty data for image h, saving to failed/");
}
